//! The connection state machine: all protocol state per connection and per
//! channel, the request registry, the outbound frame queue, and the inbound
//! frame dispatcher.  It performs no I/O; the transport layer feeds it
//! received frames and drains `next_frame`.

use vstd::prelude::*;
use crate::Error;
use crate::frame::{
    FieldValue, TableEntry, FieldTable, BasicProperties, ContentHeader, Method, Frame,
    table_v, FieldValueV, TableEntryV, MethodV, FrameV, ContentHeaderV, PropsV,
};
use crate::codec::table_content;
use crate::encode::table_content_vec;
use crate::message::{Delivery, BasicGetMessage};
use crate::queue::{
    Binding, Consumer, Queue, bytes_eq, consumer_index, queue_index, find_consumer, find_queue,
};

verus! {

/// Client-local identifier pairing a request frame with its reply.
pub type RequestId = u32;

/// Stage of the connection handshake.
#[derive(Clone, Copy, Debug, PartialEq, Eq, Structural)]
pub enum ConnectingState {
    SentProtocolHeader,
    ReceivedStart,
    SentStartOk,
    ReceivedTune,
    SentTuneOk,
    SentOpen,
    ReceivedOpenOk,
}

#[derive(Clone, Copy, Debug, PartialEq, Eq, Structural)]
pub enum ConnectionState {
    Initial,
    Connecting(ConnectingState),
    Connected,
    Closing,
    Closed,
    Error,
}

#[derive(Clone, Copy, Debug, PartialEq, Eq, Structural)]
pub enum ChannelStatus {
    Initial,
    Opening,
    Open,
    Closing,
    Closed,
    Error,
}

/// The status of one issued request.
#[derive(Clone, Copy, Debug, PartialEq, Eq, Structural)]
pub enum RequestStatus {
    Pending,
    Finished(bool),
    FinishedGet(bool),
}

/// Negotiated connection parameters.  Before the tune step these hold the
/// client's proposals; afterwards the negotiated values.
#[derive(Clone, Copy, Debug, PartialEq, Eq, Structural)]
pub struct ConnectionConfiguration {
    pub channel_max: u16,
    pub frame_max: u32,
    pub heartbeat: u16,
}

/// The reply the oldest outstanding request on a channel expects, with what
/// is needed to apply the reply's effect.
#[derive(Clone, Debug, PartialEq, Eq)]
pub enum Expected {
    ChannelOpenOk,
    ChannelFlowOk,
    ChannelCloseOk,
    AccessRequestOk,
    ExchangeDeclareOk,
    ExchangeDeleteOk,
    ExchangeBindOk,
    ExchangeUnbindOk,
    QueueDeclareOk { passive: bool, durable: bool, exclusive: bool, auto_delete: bool },
    QueueBindOk { queue: Vec<u8>, exchange: Vec<u8>, routing_key: Vec<u8>, nowait: bool },
    QueueUnbindOk { queue: Vec<u8>, exchange: Vec<u8>, routing_key: Vec<u8> },
    QueuePurgeOk,
    QueueDeleteOk { queue: Vec<u8> },
    BasicQosOk,
    BasicConsumeOk { queue: Vec<u8>, no_local: bool, no_ack: bool, exclusive: bool, nowait: bool },
    BasicGetAnswer { queue: Vec<u8> },
    ConfirmSelectOk,
}

pub enum ExpectedV {
    ChannelOpenOk,
    ChannelFlowOk,
    ChannelCloseOk,
    AccessRequestOk,
    ExchangeDeclareOk,
    ExchangeDeleteOk,
    ExchangeBindOk,
    ExchangeUnbindOk,
    QueueDeclareOk { passive: bool, durable: bool, exclusive: bool, auto_delete: bool },
    QueueBindOk { queue: Seq<u8>, exchange: Seq<u8>, routing_key: Seq<u8>, nowait: bool },
    QueueUnbindOk { queue: Seq<u8>, exchange: Seq<u8>, routing_key: Seq<u8> },
    QueuePurgeOk,
    QueueDeleteOk { queue: Seq<u8> },
    BasicQosOk,
    BasicConsumeOk { queue: Seq<u8>, no_local: bool, no_ack: bool, exclusive: bool, nowait: bool },
    BasicGetAnswer { queue: Seq<u8> },
    ConfirmSelectOk,
}

impl View for Expected {
    type V = ExpectedV;

    open spec fn view(&self) -> ExpectedV {
        match self {
            Expected::ChannelOpenOk => ExpectedV::ChannelOpenOk,
            Expected::ChannelFlowOk => ExpectedV::ChannelFlowOk,
            Expected::ChannelCloseOk => ExpectedV::ChannelCloseOk,
            Expected::AccessRequestOk => ExpectedV::AccessRequestOk,
            Expected::ExchangeDeclareOk => ExpectedV::ExchangeDeclareOk,
            Expected::ExchangeDeleteOk => ExpectedV::ExchangeDeleteOk,
            Expected::ExchangeBindOk => ExpectedV::ExchangeBindOk,
            Expected::ExchangeUnbindOk => ExpectedV::ExchangeUnbindOk,
            Expected::QueueDeclareOk { passive, durable, exclusive, auto_delete } =>
                ExpectedV::QueueDeclareOk {
                    passive: *passive,
                    durable: *durable,
                    exclusive: *exclusive,
                    auto_delete: *auto_delete,
                },
            Expected::QueueBindOk { queue, exchange, routing_key, nowait } =>
                ExpectedV::QueueBindOk {
                    queue: queue@,
                    exchange: exchange@,
                    routing_key: routing_key@,
                    nowait: *nowait,
                },
            Expected::QueueUnbindOk { queue, exchange, routing_key } =>
                ExpectedV::QueueUnbindOk {
                    queue: queue@,
                    exchange: exchange@,
                    routing_key: routing_key@,
                },
            Expected::QueuePurgeOk => ExpectedV::QueuePurgeOk,
            Expected::QueueDeleteOk { queue } => ExpectedV::QueueDeleteOk { queue: queue@ },
            Expected::BasicQosOk => ExpectedV::BasicQosOk,
            Expected::BasicConsumeOk { queue, no_local, no_ack, exclusive, nowait } =>
                ExpectedV::BasicConsumeOk {
                    queue: queue@,
                    no_local: *no_local,
                    no_ack: *no_ack,
                    exclusive: *exclusive,
                    nowait: *nowait,
                },
            Expected::BasicGetAnswer { queue } => ExpectedV::BasicGetAnswer { queue: queue@ },
            Expected::ConfirmSelectOk => ExpectedV::ConfirmSelectOk,
        }
    }
}

/// One outstanding request on a channel.
#[derive(Clone, Debug, PartialEq, Eq)]
pub struct Awaiting {
    pub request_id: RequestId,
    pub expected: Expected,
}

pub struct AwaitingV {
    pub request_id: RequestId,
    pub expected: ExpectedV,
}

impl View for Awaiting {
    type V = AwaitingV;

    open spec fn view(&self) -> AwaitingV {
        AwaitingV { request_id: self.request_id, expected: self.expected@ }
    }
}

/// Where the message currently being assembled on a channel is headed.
#[derive(Clone, Debug, PartialEq, Eq)]
pub enum ContentTarget {
    ConsumerTarget { queue: Vec<u8>, tag: Vec<u8> },
    GetTarget { queue: Vec<u8> },
    ReturnTarget,
}

pub enum ContentTargetV {
    ConsumerTarget { queue: Seq<u8>, tag: Seq<u8> },
    GetTarget { queue: Seq<u8> },
    ReturnTarget,
}

impl View for ContentTarget {
    type V = ContentTargetV;

    open spec fn view(&self) -> ContentTargetV {
        match self {
            ContentTarget::ConsumerTarget { queue, tag } =>
                ContentTargetV::ConsumerTarget { queue: queue@, tag: tag@ },
            ContentTarget::GetTarget { queue } => ContentTargetV::GetTarget { queue: queue@ },
            ContentTarget::ReturnTarget => ContentTargetV::ReturnTarget,
        }
    }
}

/// Assembly state for the channel's in-flight content-bearing message.
#[derive(Clone, Debug, PartialEq, Eq)]
pub struct ContentScratch {
    pub target: ContentTarget,
    pub awaiting_header: bool,
    pub remaining: u64,
}

/// Per-channel protocol state, held in `Connection::channels` at the index
/// equal to the channel id.
#[derive(Clone, Debug, PartialEq, Eq)]
pub struct ChannelState {
    pub state: ChannelStatus,
    pub confirm: bool,
    pub next_publish_tag: u64,
    pub unacked: Vec<u64>,
    pub acked: Vec<u64>,
    pub nacked: Vec<u64>,
    pub queues: Vec<Queue>,
    pub send_flow: bool,
    pub awaiting: Vec<Awaiting>,
    pub content: Option<ContentScratch>,
    pub current_return: Option<Delivery>,
    pub error_code: u16,
    pub error_reason: Vec<u8>,
    pub error_class_id: u16,
    pub error_method_id: u16,
}

impl ChannelState {
    /// A fresh channel slot.
    pub fn fresh() -> (r: ChannelState)
        ensures
            r.state == ChannelStatus::Initial,
            !r.confirm,
            r.next_publish_tag == 1,
            r.unacked@ == Seq::<u64>::empty(),
            r.acked@ == Seq::<u64>::empty(),
            r.nacked@ == Seq::<u64>::empty(),
            r.queues@ == Seq::<Queue>::empty(),
            r.send_flow,
            r.awaiting@ == Seq::<Awaiting>::empty(),
            r.content is None,
            r.current_return is None,
            r.error_code == 0,
            r.error_reason@ == Seq::<u8>::empty(),
            r.error_class_id == 0,
            r.error_method_id == 0,
            chan_wf(r),
    {
        ChannelState {
            state: ChannelStatus::Initial,
            confirm: false,
            next_publish_tag: 1,
            unacked: Vec::new(),
            acked: Vec::new(),
            nacked: Vec::new(),
            queues: Vec::new(),
            send_flow: true,
            awaiting: Vec::new(),
            content: None,
            current_return: None,
            error_code: 0,
            error_reason: Vec::new(),
            error_class_id: 0,
            error_method_id: 0,
        }
    }
}

/// Publisher-confirm bookkeeping is sound: no duplicate tags, the three sets
/// are pairwise disjoint, and every tag was allocated below the next one.
pub open spec fn chan_wf(ch: ChannelState) -> bool {
    &&& ch.unacked@.no_duplicates()
    &&& ch.acked@.no_duplicates()
    &&& ch.nacked@.no_duplicates()
    &&& forall|i: int| 0 <= i < ch.unacked@.len()
        ==> !ch.acked@.contains(#[trigger] ch.unacked@[i])
            && !ch.nacked@.contains(ch.unacked@[i])
    &&& forall|i: int| 0 <= i < ch.acked@.len()
        ==> !ch.nacked@.contains(#[trigger] ch.acked@[i])
    &&& forall|i: int| 0 <= i < ch.unacked@.len()
        ==> 0 < #[trigger] ch.unacked@[i] < ch.next_publish_tag
    &&& forall|i: int| 0 <= i < ch.acked@.len()
        ==> 0 < #[trigger] ch.acked@[i] < ch.next_publish_tag
    &&& forall|i: int| 0 <= i < ch.nacked@.len()
        ==> 0 < #[trigger] ch.nacked@[i] < ch.next_publish_tag
    &&& ch.next_publish_tag >= 1
}

/// The connection: protocol state, per-channel state keyed by channel id
/// (the vector index), the request registry, and the outbound frame queue.
pub struct Connection {
    pub state: ConnectionState,
    pub configuration: ConnectionConfiguration,
    pub username: Vec<u8>,
    pub password: Vec<u8>,
    pub vhost: Vec<u8>,
    pub channels: Vec<ChannelState>,
    pub frame_queue: Vec<Frame>,
    pub requests: Vec<RequestStatus>,
    pub close_code: u16,
    pub close_reason: Vec<u8>,
}

/// Structural soundness of a connection value.
pub open spec fn conn_wf(c: &Connection) -> bool {
    &&& 1 <= c.channels@.len() <= 0x1_0000
    &&& c.requests@.len() < 0xFFFF_FFFF
    &&& forall|k: int| 0 <= k < c.channels@.len() ==> chan_wf(#[trigger] c.channels@[k])
}

// ---------------------------------------------------------------------------
// Negotiation
// ---------------------------------------------------------------------------

/// The effective value of a tunable: the minimum of the two proposals, where
/// zero means "no limit" and yields the peer's proposal.
pub open spec fn spec_negotiate_u16(client: u16, server: u16) -> u16 {
    if client == 0 {
        server
    } else if server == 0 {
        client
    } else if client <= server {
        client
    } else {
        server
    }
}

pub open spec fn spec_negotiate_u32(client: u32, server: u32) -> u32 {
    if client == 0 {
        server
    } else if server == 0 {
        client
    } else if client <= server {
        client
    } else {
        server
    }
}

/// Negotiate one 16-bit tunable: `min` of the nonzero proposals, the nonzero
/// one when only one is nonzero, and 0 when both are 0.
pub fn negotiate_u16(client: u16, server: u16) -> (r: u16)
    ensures
        r == spec_negotiate_u16(client, server),
        client != 0 && server != 0 ==> r == (if client <= server { client } else { server }),
        client == 0 ==> r == server,
        server == 0 ==> r == client,
{
    if client == 0 {
        server
    } else if server == 0 {
        client
    } else if client <= server {
        client
    } else {
        server
    }
}

/// Negotiate one 32-bit tunable, as `negotiate_u16` does.
pub fn negotiate_u32(client: u32, server: u32) -> (r: u32)
    ensures
        r == spec_negotiate_u32(client, server),
        client != 0 && server != 0 ==> r == (if client <= server { client } else { server }),
        client == 0 ==> r == server,
        server == 0 ==> r == client,
{
    if client == 0 {
        server
    } else if server == 0 {
        client
    } else if client <= server {
        client
    } else {
        server
    }
}

pub open spec fn s_product() -> Seq<u8> {
    seq![112u8, 114, 111, 100, 117, 99, 116]
}

pub fn b_product() -> (r: Vec<u8>)
    ensures
        r@ == s_product(),
{
    let mut v: Vec<u8> = Vec::new();
    v.push(112);
    v.push(114);
    v.push(111);
    v.push(100);
    v.push(117);
    v.push(99);
    v.push(116);
    proof {
        assert(v@ =~= s_product());
    }
    v
}

pub open spec fn s_version() -> Seq<u8> {
    seq![118u8, 101, 114, 115, 105, 111, 110]
}

pub fn b_version() -> (r: Vec<u8>)
    ensures
        r@ == s_version(),
{
    let mut v: Vec<u8> = Vec::new();
    v.push(118);
    v.push(101);
    v.push(114);
    v.push(115);
    v.push(105);
    v.push(111);
    v.push(110);
    proof {
        assert(v@ =~= s_version());
    }
    v
}

pub open spec fn s_platform() -> Seq<u8> {
    seq![112u8, 108, 97, 116, 102, 111, 114, 109]
}

pub fn b_platform() -> (r: Vec<u8>)
    ensures
        r@ == s_platform(),
{
    let mut v: Vec<u8> = Vec::new();
    v.push(112);
    v.push(108);
    v.push(97);
    v.push(116);
    v.push(102);
    v.push(111);
    v.push(114);
    v.push(109);
    proof {
        assert(v@ =~= s_platform());
    }
    v
}

pub open spec fn s_capabilities() -> Seq<u8> {
    seq![99u8, 97, 112, 97, 98, 105, 108, 105, 116, 105, 101, 115]
}

pub fn b_capabilities() -> (r: Vec<u8>)
    ensures
        r@ == s_capabilities(),
{
    let mut v: Vec<u8> = Vec::new();
    v.push(99);
    v.push(97);
    v.push(112);
    v.push(97);
    v.push(98);
    v.push(105);
    v.push(108);
    v.push(105);
    v.push(116);
    v.push(105);
    v.push(101);
    v.push(115);
    proof {
        assert(v@ =~= s_capabilities());
    }
    v
}

pub open spec fn s_product_value() -> Seq<u8> {
    seq![97u8, 109, 113, 112, 95, 99, 111, 114, 101]
}

pub fn b_product_value() -> (r: Vec<u8>)
    ensures
        r@ == s_product_value(),
{
    let mut v: Vec<u8> = Vec::new();
    v.push(97);
    v.push(109);
    v.push(113);
    v.push(112);
    v.push(95);
    v.push(99);
    v.push(111);
    v.push(114);
    v.push(101);
    proof {
        assert(v@ =~= s_product_value());
    }
    v
}

pub open spec fn s_version_value() -> Seq<u8> {
    seq![48u8, 46, 49, 46, 48]
}

pub fn b_version_value() -> (r: Vec<u8>)
    ensures
        r@ == s_version_value(),
{
    let mut v: Vec<u8> = Vec::new();
    v.push(48);
    v.push(46);
    v.push(49);
    v.push(46);
    v.push(48);
    proof {
        assert(v@ =~= s_version_value());
    }
    v
}

pub open spec fn s_platform_value() -> Seq<u8> {
    seq![114u8, 117, 115, 116]
}

pub fn b_platform_value() -> (r: Vec<u8>)
    ensures
        r@ == s_platform_value(),
{
    let mut v: Vec<u8> = Vec::new();
    v.push(114);
    v.push(117);
    v.push(115);
    v.push(116);
    proof {
        assert(v@ =~= s_platform_value());
    }
    v
}

pub open spec fn s_cap_publisher_confirms() -> Seq<u8> {
    seq![112u8, 117, 98, 108, 105, 115, 104, 101, 114, 95, 99, 111, 110, 102, 105, 114, 109, 115]
}

pub fn b_cap_publisher_confirms() -> (r: Vec<u8>)
    ensures
        r@ == s_cap_publisher_confirms(),
{
    let mut v: Vec<u8> = Vec::new();
    v.push(112);
    v.push(117);
    v.push(98);
    v.push(108);
    v.push(105);
    v.push(115);
    v.push(104);
    v.push(101);
    v.push(114);
    v.push(95);
    v.push(99);
    v.push(111);
    v.push(110);
    v.push(102);
    v.push(105);
    v.push(114);
    v.push(109);
    v.push(115);
    proof {
        assert(v@ =~= s_cap_publisher_confirms());
    }
    v
}

pub open spec fn s_cap_consumer_cancel_notify() -> Seq<u8> {
    seq![99u8, 111, 110, 115, 117, 109, 101, 114, 95, 99, 97, 110, 99, 101, 108, 95, 110, 111, 116, 105, 102, 121]
}

pub fn b_cap_consumer_cancel_notify() -> (r: Vec<u8>)
    ensures
        r@ == s_cap_consumer_cancel_notify(),
{
    let mut v: Vec<u8> = Vec::new();
    v.push(99);
    v.push(111);
    v.push(110);
    v.push(115);
    v.push(117);
    v.push(109);
    v.push(101);
    v.push(114);
    v.push(95);
    v.push(99);
    v.push(97);
    v.push(110);
    v.push(99);
    v.push(101);
    v.push(108);
    v.push(95);
    v.push(110);
    v.push(111);
    v.push(116);
    v.push(105);
    v.push(102);
    v.push(121);
    proof {
        assert(v@ =~= s_cap_consumer_cancel_notify());
    }
    v
}

pub open spec fn s_cap_exchange_exchange_bindings() -> Seq<u8> {
    seq![101u8, 120, 99, 104, 97, 110, 103, 101, 95, 101, 120, 99, 104, 97, 110, 103, 101, 95, 98, 105, 110, 100, 105, 110, 103, 115]
}

pub fn b_cap_exchange_exchange_bindings() -> (r: Vec<u8>)
    ensures
        r@ == s_cap_exchange_exchange_bindings(),
{
    let mut v: Vec<u8> = Vec::new();
    v.push(101);
    v.push(120);
    v.push(99);
    v.push(104);
    v.push(97);
    v.push(110);
    v.push(103);
    v.push(101);
    v.push(95);
    v.push(101);
    v.push(120);
    v.push(99);
    v.push(104);
    v.push(97);
    v.push(110);
    v.push(103);
    v.push(101);
    v.push(95);
    v.push(98);
    v.push(105);
    v.push(110);
    v.push(100);
    v.push(105);
    v.push(110);
    v.push(103);
    v.push(115);
    proof {
        assert(v@ =~= s_cap_exchange_exchange_bindings());
    }
    v
}

pub open spec fn s_cap_basic_nack() -> Seq<u8> {
    seq![98u8, 97, 115, 105, 99, 46, 110, 97, 99, 107]
}

pub fn b_cap_basic_nack() -> (r: Vec<u8>)
    ensures
        r@ == s_cap_basic_nack(),
{
    let mut v: Vec<u8> = Vec::new();
    v.push(98);
    v.push(97);
    v.push(115);
    v.push(105);
    v.push(99);
    v.push(46);
    v.push(110);
    v.push(97);
    v.push(99);
    v.push(107);
    proof {
        assert(v@ =~= s_cap_basic_nack());
    }
    v
}

pub open spec fn s_cap_connection_blocked() -> Seq<u8> {
    seq![99u8, 111, 110, 110, 101, 99, 116, 105, 111, 110, 46, 98, 108, 111, 99, 107, 101, 100]
}

pub fn b_cap_connection_blocked() -> (r: Vec<u8>)
    ensures
        r@ == s_cap_connection_blocked(),
{
    let mut v: Vec<u8> = Vec::new();
    v.push(99);
    v.push(111);
    v.push(110);
    v.push(110);
    v.push(101);
    v.push(99);
    v.push(116);
    v.push(105);
    v.push(111);
    v.push(110);
    v.push(46);
    v.push(98);
    v.push(108);
    v.push(111);
    v.push(99);
    v.push(107);
    v.push(101);
    v.push(100);
    proof {
        assert(v@ =~= s_cap_connection_blocked());
    }
    v
}

pub open spec fn s_cap_authentication_failure_close() -> Seq<u8> {
    seq![97u8, 117, 116, 104, 101, 110, 116, 105, 99, 97, 116, 105, 111, 110, 95, 102, 97, 105, 108, 117, 114, 101, 95, 99, 108, 111, 115, 101]
}

pub fn b_cap_authentication_failure_close() -> (r: Vec<u8>)
    ensures
        r@ == s_cap_authentication_failure_close(),
{
    let mut v: Vec<u8> = Vec::new();
    v.push(97);
    v.push(117);
    v.push(116);
    v.push(104);
    v.push(101);
    v.push(110);
    v.push(116);
    v.push(105);
    v.push(99);
    v.push(97);
    v.push(116);
    v.push(105);
    v.push(111);
    v.push(110);
    v.push(95);
    v.push(102);
    v.push(97);
    v.push(105);
    v.push(108);
    v.push(117);
    v.push(114);
    v.push(101);
    v.push(95);
    v.push(99);
    v.push(108);
    v.push(111);
    v.push(115);
    v.push(101);
    proof {
        assert(v@ =~= s_cap_authentication_failure_close());
    }
    v
}

pub open spec fn s_mechanism_plain() -> Seq<u8> {
    seq![80u8, 76, 65, 73, 78]
}

pub fn b_mechanism_plain() -> (r: Vec<u8>)
    ensures
        r@ == s_mechanism_plain(),
{
    let mut v: Vec<u8> = Vec::new();
    v.push(80);
    v.push(76);
    v.push(65);
    v.push(73);
    v.push(78);
    proof {
        assert(v@ =~= s_mechanism_plain());
    }
    v
}

pub open spec fn s_locale_en_us() -> Seq<u8> {
    seq![101u8, 110, 95, 85, 83]
}

pub fn b_locale_en_us() -> (r: Vec<u8>)
    ensures
        r@ == s_locale_en_us(),
{
    let mut v: Vec<u8> = Vec::new();
    v.push(101);
    v.push(110);
    v.push(95);
    v.push(85);
    v.push(83);
    proof {
        assert(v@ =~= s_locale_en_us());
    }
    v
}

pub open spec fn s_default_user() -> Seq<u8> {
    seq![103u8, 117, 101, 115, 116]
}

pub fn b_default_user() -> (r: Vec<u8>)
    ensures
        r@ == s_default_user(),
{
    let mut v: Vec<u8> = Vec::new();
    v.push(103);
    v.push(117);
    v.push(101);
    v.push(115);
    v.push(116);
    proof {
        assert(v@ =~= s_default_user());
    }
    v
}

pub open spec fn s_default_vhost() -> Seq<u8> {
    seq![47u8]
}

pub fn b_default_vhost() -> (r: Vec<u8>)
    ensures
        r@ == s_default_vhost(),
{
    let mut v: Vec<u8> = Vec::new();
    v.push(47);
    proof {
        assert(v@ =~= s_default_vhost());
    }
    v
}

// ---------------------------------------------------------------------------
// The start-ok reply
// ---------------------------------------------------------------------------

/// The capability table announced in `connection.start-ok`.
pub open spec fn capabilities_v() -> Seq<TableEntryV> {
    seq![
        TableEntryV { key: s_cap_publisher_confirms(), value: FieldValueV::Boolean(true) },
        TableEntryV { key: s_cap_consumer_cancel_notify(), value: FieldValueV::Boolean(true) },
        TableEntryV { key: s_cap_exchange_exchange_bindings(), value: FieldValueV::Boolean(true) },
        TableEntryV { key: s_cap_basic_nack(), value: FieldValueV::Boolean(true) },
        TableEntryV { key: s_cap_connection_blocked(), value: FieldValueV::Boolean(true) },
        TableEntryV { key: s_cap_authentication_failure_close(), value: FieldValueV::Boolean(true) },
    ]
}

/// The client-properties table announced in `connection.start-ok`.
pub open spec fn client_properties_v() -> Seq<TableEntryV> {
    seq![
        TableEntryV { key: s_product(), value: FieldValueV::LongString(s_product_value()) },
        TableEntryV { key: s_version(), value: FieldValueV::LongString(s_version_value()) },
        TableEntryV { key: s_platform(), value: FieldValueV::LongString(s_platform_value()) },
        TableEntryV {
            key: s_capabilities(),
            value: FieldValueV::Table(table_content(capabilities_v())),
        },
    ]
}

/// The SASL PLAIN response for the given credentials.
pub open spec fn plain_response_v(user: Seq<u8>, pass: Seq<u8>) -> Seq<u8> {
    seq![0u8] + user + seq![0u8] + pass
}

/// The exact `connection.start-ok` reply for the given credentials.
pub open spec fn start_ok_v(user: Seq<u8>, pass: Seq<u8>) -> MethodV {
    MethodV::ConnectionStartOk {
        client_properties: client_properties_v(),
        mechanism: s_mechanism_plain(),
        response: plain_response_v(user, pass),
        locale: s_locale_en_us(),
    }
}

/// Build the SASL PLAIN response `\0user\0pass`.
fn plain_response(user: &Vec<u8>, pass: &Vec<u8>) -> (r: Vec<u8>)
    ensures
        r@ == plain_response_v(user@, pass@),
{
    let mut v: Vec<u8> = Vec::new();
    v.push(0);
    let mut u = user.clone();
    proof {
        assert(u@ == user@);
    }
    v.append(&mut u);
    v.push(0);
    let mut p = pass.clone();
    proof {
        assert(p@ == pass@);
    }
    v.append(&mut p);
    proof {
        assert(v@ =~= plain_response_v(user@, pass@));
    }
    v
}

/// Build the capability table.
fn capabilities_table() -> (r: FieldTable)
    ensures
        table_v(r@) == capabilities_v(),
{
    let mut t: Vec<TableEntry> = Vec::new();
    t.push(TableEntry { key: b_cap_publisher_confirms(), value: FieldValue::Boolean(true) });
    t.push(TableEntry { key: b_cap_consumer_cancel_notify(), value: FieldValue::Boolean(true) });
    t.push(TableEntry {
        key: b_cap_exchange_exchange_bindings(),
        value: FieldValue::Boolean(true),
    });
    t.push(TableEntry { key: b_cap_basic_nack(), value: FieldValue::Boolean(true) });
    t.push(TableEntry { key: b_cap_connection_blocked(), value: FieldValue::Boolean(true) });
    t.push(TableEntry {
        key: b_cap_authentication_failure_close(),
        value: FieldValue::Boolean(true),
    });
    proof {
        assert(table_v(t@) =~= capabilities_v());
    }
    t
}

/// Build the `connection.start-ok` method for the given credentials.
fn start_ok_method(user: &Vec<u8>, pass: &Vec<u8>) -> (r: Method)
    ensures
        r@ == start_ok_v(user@, pass@),
{
    let caps = capabilities_table();
    let caps_bytes = match table_content_vec(&caps) {
        Ok(v) => v,
        Err(_) => {
            proof {
                assert(false);
            }
            Vec::new()
        },
    };
    let mut props: Vec<TableEntry> = Vec::new();
    props.push(TableEntry { key: b_product(), value: FieldValue::LongString(b_product_value()) });
    props.push(TableEntry { key: b_version(), value: FieldValue::LongString(b_version_value()) });
    props.push(TableEntry {
        key: b_platform(),
        value: FieldValue::LongString(b_platform_value()),
    });
    props.push(TableEntry { key: b_capabilities(), value: FieldValue::Table(caps_bytes) });
    proof {
        assert(table_v(props@) =~= client_properties_v());
    }
    Method::ConnectionStartOk {
        client_properties: props,
        mechanism: b_mechanism_plain(),
        response: plain_response(user, pass),
        locale: b_locale_en_us(),
    }
}

// ---------------------------------------------------------------------------
// Frame-queue and channel change descriptions
// ---------------------------------------------------------------------------

/// `post` extends `pre` with exactly the frames viewed as `fs`.
pub open spec fn queue_extended(pre: Seq<Frame>, post: Seq<Frame>, fs: Seq<FrameV>) -> bool {
    &&& post.len() == pre.len() + fs.len()
    &&& forall|k: int| 0 <= k < pre.len() ==> post[k] == pre[k]
    &&& forall|k: int| 0 <= k < fs.len() ==> #[trigger] post[pre.len() + k]@ == fs[k]
}

/// All channels agree except possibly the one at index `c`.
pub open spec fn chans_same_except(pre: Seq<ChannelState>, post: Seq<ChannelState>, c: int) -> bool {
    &&& post.len() == pre.len()
    &&& forall|k: int| 0 <= k < pre.len() && k != c ==> post[k] == pre[k]
}

/// The channel's awaiting queue grew by one entry carrying `id` and `exp`;
/// every other field is untouched (the channel's own state aside).
pub open spec fn chan_awaiting_pushed(
    pre: ChannelState,
    post: ChannelState,
    id: RequestId,
    exp: ExpectedV,
) -> bool {
    &&& post.confirm == pre.confirm
    &&& post.next_publish_tag == pre.next_publish_tag
    &&& post.unacked == pre.unacked
    &&& post.acked == pre.acked
    &&& post.nacked == pre.nacked
    &&& post.queues == pre.queues
    &&& post.send_flow == pre.send_flow
    &&& post.content == pre.content
    &&& post.current_return == pre.current_return
    &&& post.error_code == pre.error_code
    &&& post.error_reason == pre.error_reason
    &&& post.awaiting@.len() == pre.awaiting@.len() + 1
    &&& forall|k: int| 0 <= k < pre.awaiting@.len() ==> post.awaiting@[k] == pre.awaiting@[k]
    &&& post.awaiting@[pre.awaiting@.len() as int]@.request_id == id
    &&& post.awaiting@[pre.awaiting@.len() as int]@.expected == exp
}

/// The channel changed only by appending one awaiting entry.
pub open spec fn chan_only_awaiting(
    pre: ChannelState,
    post: ChannelState,
    id: RequestId,
    exp: ExpectedV,
) -> bool {
    post.state == pre.state && chan_awaiting_pushed(pre, post, id, exp)
}

/// Connection fields other than channels, frame queue and requests agree.
pub open spec fn conn_core_same(pre: &Connection, post: &Connection) -> bool {
    &&& post.state == pre.state
    &&& post.configuration == pre.configuration
    &&& post.username == pre.username
    &&& post.password == pre.password
    &&& post.vhost == pre.vhost
    &&& post.close_code == pre.close_code
    &&& post.close_reason == pre.close_reason
}

/// A channel exists and is usable for a new request.
pub open spec fn channel_usable(pre: &Connection, c: u16) -> bool {
    &&& pre.state == ConnectionState::Connected
    &&& (c as int) < pre.channels@.len()
    &&& pre.channels@[c as int].state == ChannelStatus::Open
}

/// The request registry can still allocate an id.
pub open spec fn registry_open(pre: &Connection) -> bool {
    pre.requests@.len() < 0xFFFF_FFFE
}

/// A further channel id can be allocated: the count stays within the
/// negotiated (or protocol) channel-number limit.
pub open spec fn can_create_channel(pre: &Connection) -> bool {
    &&& pre.channels@.len() <= (if pre.configuration.channel_max == 0 {
        0xFFFF
    } else {
        pre.configuration.channel_max as int
    })
    &&& pre.channels@.len() < 0xFFFF
}

/// The error reported for a request on an unusable channel: a closed
/// connection reports `ConnectionClosed`, a channel the broker closed
/// reports `ChannelClosed` with the stored code and reason, anything else
/// is `InvalidState`.
pub open spec fn unusable_error(pre: &Connection, c: u16, e: Error) -> bool {
    if pre.state == ConnectionState::Closed && pre.close_code != 0 {
        &&& e matches Error::ConnectionClosed { code, reason }
        &&& e matches Error::ConnectionClosed { code, reason } ==> code == pre.close_code
            && reason@ == pre.close_reason@
    } else if pre.state == ConnectionState::Connected && (c as int) < pre.channels@.len()
        && (pre.channels@[c as int].state == ChannelStatus::Closed
            || pre.channels@[c as int].state == ChannelStatus::Error)
        && pre.channels@[c as int].error_code != 0 {
        &&& e matches Error::ChannelClosed { code, reason }
        &&& e matches Error::ChannelClosed { code, reason } ==> code
            == pre.channels@[c as int].error_code && reason@
            == pre.channels@[c as int].error_reason@
    } else {
        e == Error::InvalidState
    }
}

/// Success of issuing a request on channel `c`: the method frame is queued,
/// a fresh pending request id is allocated, and the awaiting entry recorded.
pub open spec fn request_issued(
    pre: &Connection,
    post: &Connection,
    c: u16,
    mv: MethodV,
    exp: ExpectedV,
    id: RequestId,
) -> bool {
    &&& channel_usable(pre, c)
    &&& id as int == pre.requests@.len()
    &&& post.requests@ == pre.requests@ + seq![RequestStatus::Pending]
    &&& queue_extended(pre.frame_queue@, post.frame_queue@, seq![FrameV::Method(c, mv)])
    &&& chans_same_except(pre.channels@, post.channels@, c as int)
    &&& chan_only_awaiting(pre.channels@[c as int], post.channels@[c as int], id, exp)
    &&& conn_core_same(pre, post)
}

/// A fire-and-forget method was queued on channel `c` and nothing else
/// changed.
pub open spec fn method_sent(pre: &Connection, post: &Connection, c: u16, mv: MethodV) -> bool {
    &&& channel_usable(pre, c)
    &&& post.requests == pre.requests
    &&& post.channels == pre.channels
    &&& queue_extended(pre.frame_queue@, post.frame_queue@, seq![FrameV::Method(c, mv)])
    &&& conn_core_same(pre, post)
}

impl Connection {
    /// A fresh connection with the default configuration: credentials
    /// guest/guest, virtual host "/", and every tunable left to negotiation.
    pub fn new() -> (r: Connection)
        ensures
            r.state == ConnectionState::Initial,
            r.configuration == (ConnectionConfiguration { channel_max: 0, frame_max: 0, heartbeat: 0 }),
            r.username@ == s_default_user(),
            r.password@ == s_default_user(),
            r.vhost@ == s_default_vhost(),
            r.channels@.len() == 1,
            r.frame_queue@ == Seq::<Frame>::empty(),
            r.requests@ == Seq::<RequestStatus>::empty(),
            conn_wf(&r),
    {
        let mut channels: Vec<ChannelState> = Vec::new();
        channels.push(ChannelState::fresh());
        Connection {
            state: ConnectionState::Initial,
            configuration: ConnectionConfiguration { channel_max: 0, frame_max: 0, heartbeat: 0 },
            username: b_default_user(),
            password: b_default_user(),
            vhost: b_default_vhost(),
            channels,
            frame_queue: Vec::new(),
            requests: Vec::new(),
            close_code: 0,
            close_reason: Vec::new(),
        }
    }

    /// Set the credentials sent in `connection.start-ok`.
    pub fn set_credentials(&mut self, username: Vec<u8>, password: Vec<u8>)
        ensures
            final(self).username == username,
            final(self).password == password,
            final(self).state == old(self).state,
            final(self).configuration == old(self).configuration,
            final(self).vhost == old(self).vhost,
            final(self).channels == old(self).channels,
            final(self).frame_queue == old(self).frame_queue,
            final(self).requests == old(self).requests,
            final(self).close_code == old(self).close_code,
            final(self).close_reason == old(self).close_reason,
    {
        self.username = username;
        self.password = password;
    }

    /// Set the virtual host opened after tuning.
    pub fn set_vhost(&mut self, vhost: Vec<u8>)
        ensures
            final(self).vhost == vhost,
            final(self).state == old(self).state,
            final(self).configuration == old(self).configuration,
            final(self).username == old(self).username,
            final(self).password == old(self).password,
            final(self).channels == old(self).channels,
            final(self).frame_queue == old(self).frame_queue,
            final(self).requests == old(self).requests,
            final(self).close_code == old(self).close_code,
            final(self).close_reason == old(self).close_reason,
    {
        self.vhost = vhost;
    }

    /// Set the client-proposed maximum frame size (0 = negotiate).
    pub fn set_frame_max(&mut self, frame_max: u32)
        ensures
            final(self).configuration == (ConnectionConfiguration {
                frame_max,
                ..old(self).configuration
            }),
            final(self).state == old(self).state,
            final(self).username == old(self).username,
            final(self).password == old(self).password,
            final(self).vhost == old(self).vhost,
            final(self).channels == old(self).channels,
            final(self).frame_queue == old(self).frame_queue,
            final(self).requests == old(self).requests,
            final(self).close_code == old(self).close_code,
            final(self).close_reason == old(self).close_reason,
    {
        self.configuration.frame_max = frame_max;
    }

    /// Set the client-proposed heartbeat interval (0 = negotiate).
    pub fn set_heartbeat(&mut self, heartbeat: u16)
        ensures
            final(self).configuration == (ConnectionConfiguration {
                heartbeat,
                ..old(self).configuration
            }),
            final(self).state == old(self).state,
            final(self).username == old(self).username,
            final(self).password == old(self).password,
            final(self).vhost == old(self).vhost,
            final(self).channels == old(self).channels,
            final(self).frame_queue == old(self).frame_queue,
            final(self).requests == old(self).requests,
            final(self).close_code == old(self).close_code,
            final(self).close_reason == old(self).close_reason,
    {
        self.configuration.heartbeat = heartbeat;
    }

    /// Set the client-proposed channel-number limit (0 = negotiate).
    pub fn set_channel_max(&mut self, channel_max: u16)
        ensures
            final(self).configuration == (ConnectionConfiguration {
                channel_max,
                ..old(self).configuration
            }),
            final(self).state == old(self).state,
            final(self).username == old(self).username,
            final(self).password == old(self).password,
            final(self).vhost == old(self).vhost,
            final(self).channels == old(self).channels,
            final(self).frame_queue == old(self).frame_queue,
            final(self).requests == old(self).requests,
            final(self).close_code == old(self).close_code,
            final(self).close_reason == old(self).close_reason,
    {
        self.configuration.channel_max = channel_max;
    }

    /// Start the handshake: queue the protocol greeting and enter
    /// `Connecting`.
    pub fn connect(&mut self) -> (r: Result<(), Error>)
        ensures
            old(self).state == ConnectionState::Initial ==> {
                &&& r == Ok::<(), Error>(())
                &&& final(self).state
                    == ConnectionState::Connecting(ConnectingState::SentProtocolHeader)
                &&& queue_extended(old(self).frame_queue@, final(self).frame_queue@,
                    seq![FrameV::ProtocolHeader])
                &&& final(self).channels == old(self).channels
                &&& final(self).requests == old(self).requests
                &&& final(self).configuration == old(self).configuration
                &&& final(self).username == old(self).username
                &&& final(self).password == old(self).password
                &&& final(self).vhost == old(self).vhost
            },
            old(self).state != ConnectionState::Initial ==> r == Err::<(), Error>(
                Error::InvalidState,
            ) && *final(self) == *old(self),
    {
        if !matches!(self.state, ConnectionState::Initial) {
            return Err(Error::InvalidState);
        }
        self.frame_queue.push(Frame::ProtocolHeader);
        self.state = ConnectionState::Connecting(ConnectingState::SentProtocolHeader);
        Ok(())
    }

    /// Allocate the next free channel id.
    pub fn create_channel(&mut self) -> (r: Result<u16, Error>)
        requires
            conn_wf(old(self)),
        ensures
            conn_wf(final(self)),
            can_create_channel(old(self)) ==> r is Ok,
            r is Err ==> !can_create_channel(old(self)),
            match r {
                Ok(id) => {
                    &&& id as int == old(self).channels@.len()
                    &&& 1 <= id
                    &&& old(self).configuration.channel_max != 0
                        ==> id <= old(self).configuration.channel_max
                    &&& final(self).channels@.len() == old(self).channels@.len() + 1
                    &&& forall|k: int| 0 <= k < old(self).channels@.len()
                        ==> final(self).channels@[k] == old(self).channels@[k]
                    &&& final(self).channels@[id as int].state == ChannelStatus::Initial
                    &&& !final(self).channels@[id as int].confirm
                    &&& final(self).channels@[id as int].next_publish_tag == 1
                    &&& final(self).channels@[id as int].unacked@ == Seq::<u64>::empty()
                    &&& final(self).channels@[id as int].acked@ == Seq::<u64>::empty()
                    &&& final(self).channels@[id as int].nacked@ == Seq::<u64>::empty()
                    &&& final(self).channels@[id as int].queues@ == Seq::<Queue>::empty()
                    &&& final(self).channels@[id as int].send_flow
                    &&& final(self).channels@[id as int].awaiting@ == Seq::<Awaiting>::empty()
                    &&& final(self).channels@[id as int].content is None
                    &&& final(self).channels@[id as int].current_return is None
                    &&& final(self).channels@[id as int].error_code == 0
                    &&& final(self).frame_queue == old(self).frame_queue
                    &&& final(self).requests == old(self).requests
                    &&& conn_core_same(old(self), final(self))
                },
                Err(e) => e == Error::InvalidState && *final(self) == *old(self),
            },
    {
        let limit: usize = if self.configuration.channel_max == 0 {
            0xFFFF
        } else {
            self.configuration.channel_max as usize
        };
        if self.channels.len() > limit || self.channels.len() >= 0xFFFF {
            return Err(Error::InvalidState);
        }
        let id = self.channels.len() as u16;
        self.channels.push(ChannelState::fresh());
        Ok(id)
    }

    /// Append one frame to the outbound queue.
    pub fn send_frame(&mut self, f: Frame)
        ensures
            final(self).frame_queue@ == old(self).frame_queue@.push(f),
            final(self).channels == old(self).channels,
            final(self).requests == old(self).requests,
            conn_core_same(old(self), final(self)),
    {
        self.frame_queue.push(f);
    }

    /// Push one frame back to the front of the outbound queue, undoing a
    /// `next_frame` the transport could not complete.
    pub fn requeue_frame(&mut self, f: Frame)
        ensures
            final(self).frame_queue@ == seq![f] + old(self).frame_queue@,
            final(self).channels == old(self).channels,
            final(self).requests == old(self).requests,
            conn_core_same(old(self), final(self)),
    {
        self.frame_queue.insert(0, f);
        proof {
            assert(self.frame_queue@ =~= seq![f] + old(self).frame_queue@);
        }
    }

    /// Queue a heartbeat frame on channel 0.
    pub fn send_heartbeat(&mut self)
        ensures
            queue_extended(old(self).frame_queue@, final(self).frame_queue@,
                seq![FrameV::Heartbeat(0)]),
            final(self).channels == old(self).channels,
            final(self).requests == old(self).requests,
            conn_core_same(old(self), final(self)),
    {
        self.frame_queue.push(Frame::Heartbeat(0));
    }

    /// Pop the oldest outbound frame.
    pub fn next_frame(&mut self) -> (r: Option<Frame>)
        ensures
            old(self).frame_queue@.len() == 0 ==> r is None && *final(self) == *old(self),
            old(self).frame_queue@.len() > 0 ==> {
                &&& r == Some(old(self).frame_queue@[0])
                &&& final(self).frame_queue@ == old(self).frame_queue@.skip(1)
                &&& final(self).channels == old(self).channels
                &&& final(self).requests == old(self).requests
                &&& conn_core_same(old(self), final(self))
            },
    {
        if self.frame_queue.len() == 0 {
            None
        } else {
            let f = self.frame_queue.remove(0);
            proof {
                assert(self.frame_queue@ =~= old(self).frame_queue@.skip(1));
            }
            Some(f)
        }
    }

    /// `None` while the request is pending or unknown, `Some(success)` once
    /// its reply arrived.
    pub fn is_finished(&self, id: RequestId) -> (r: Option<bool>)
        ensures
            r == (if (id as int) < self.requests@.len() {
                match self.requests@[id as int] {
                    RequestStatus::Finished(b) => Some(b),
                    _ => None::<bool>,
                }
            } else {
                None::<bool>
            }),
    {
        if (id as usize) < self.requests.len() {
            match self.requests[id as usize] {
                RequestStatus::Finished(b) => Some(b),
                _ => None,
            }
        } else {
            None
        }
    }

    /// Like `is_finished`, specialized to `basic.get`: `Some(true)` when a
    /// message arrived, `Some(false)` when the queue was empty.
    pub fn finished_get_result(&self, id: RequestId) -> (r: Option<bool>)
        ensures
            r == (if (id as int) < self.requests@.len() {
                match self.requests@[id as int] {
                    RequestStatus::FinishedGet(b) => Some(b),
                    _ => None::<bool>,
                }
            } else {
                None::<bool>
            }),
    {
        if (id as usize) < self.requests.len() {
            match self.requests[id as usize] {
                RequestStatus::FinishedGet(b) => Some(b),
                _ => None,
            }
        } else {
            None
        }
    }
}

impl Connection {
    /// Issue a request on an open channel: queue the method frame, allocate
    /// a pending request id, and record the expected reply.
    fn issue_request(&mut self, channel_id: u16, m: Method, expected: Expected) -> (r: Result<
        RequestId,
        Error,
    >)
        requires
            conn_wf(old(self)),
        ensures
            conn_wf(final(self)),
            channel_usable(old(self), channel_id) && registry_open(old(self))
                ==> r is Ok,
            match r {
                Ok(id) => request_issued(old(self), final(self), channel_id, m@, expected@, id),
                Err(e) => *final(self) == *old(self) && (if channel_usable(old(self), channel_id) {
                    e == Error::InvalidState
                } else {
                    unusable_error(old(self), channel_id, e)
                }),
            },
    {
        match self.channel_gate(channel_id) {
            Ok(()) => {},
            Err(e) => {
                return Err(e);
            },
        }
        if self.requests.len() >= 0xFFFF_FFFEusize {
            return Err(Error::InvalidState);
        }
        let id = self.requests.len() as u32;
        self.requests.push(RequestStatus::Pending);
        self.frame_queue.push(Frame::Method(channel_id, m));
        let c = channel_id as usize;
        let mut chan = self.channels.remove(c);
        chan.awaiting.push(Awaiting { request_id: id, expected });
        self.channels.insert(c, chan);
        proof {
            assert(chans_same_except(old(self).channels@, self.channels@, c as int));
            assert(self.requests@ =~= old(self).requests@ + seq![RequestStatus::Pending]);
        }
        Ok(id)
    }

    /// Check that `channel_id` names an open channel on a connected
    /// connection; report why not otherwise.
    fn channel_gate(&self, channel_id: u16) -> (r: Result<(), Error>)
        ensures
            match r {
                Ok(()) => channel_usable(self, channel_id),
                Err(e) => !channel_usable(self, channel_id) && unusable_error(
                    self,
                    channel_id,
                    e,
                ),
            },
    {
        if !matches!(self.state, ConnectionState::Connected) {
            if matches!(self.state, ConnectionState::Closed) && self.close_code != 0 {
                let reason = crate::wire::copy_range(&self.close_reason, 0,
                    self.close_reason.len());
                proof {
                    assert(reason@ =~= self.close_reason@);
                }
                return Err(Error::ConnectionClosed { code: self.close_code, reason });
            }
            return Err(Error::InvalidState);
        }
        if channel_id as usize >= self.channels.len() {
            return Err(Error::InvalidState);
        }
        let chan = &self.channels[channel_id as usize];
        if matches!(chan.state, ChannelStatus::Open) {
            Ok(())
        } else if (matches!(chan.state, ChannelStatus::Closed)
            || matches!(chan.state, ChannelStatus::Error)) && chan.error_code != 0 {
            let reason = crate::wire::copy_range(&chan.error_reason, 0, chan.error_reason.len());
            proof {
                assert(reason@ =~= chan.error_reason@);
            }
            Err(Error::ChannelClosed { code: chan.error_code, reason })
        } else {
            Err(Error::InvalidState)
        }
    }

    /// Queue a fire-and-forget method on an open channel.
    fn send_method(&mut self, channel_id: u16, m: Method) -> (r: Result<(), Error>)
        requires
            conn_wf(old(self)),
        ensures
            conn_wf(final(self)),
            channel_usable(old(self), channel_id) ==> r is Ok,
            match r {
                Ok(()) => method_sent(old(self), final(self), channel_id, m@),
                Err(e) => *final(self) == *old(self) && unusable_error(old(self), channel_id, e),
            },
    {
        match self.channel_gate(channel_id) {
            Ok(()) => {},
            Err(e) => {
                return Err(e);
            },
        }
        self.frame_queue.push(Frame::Method(channel_id, m));
        Ok(())
    }

    /// Queue a request, or just the method when `nowait` asks for no reply.
    fn request_or_send(
        &mut self,
        channel_id: u16,
        m: Method,
        expected: Expected,
        nowait: bool,
    ) -> (r: Result<Option<RequestId>, Error>)
        requires
            conn_wf(old(self)),
        ensures
            conn_wf(final(self)),
            channel_usable(old(self), channel_id) && (nowait || registry_open(old(self)))
                ==> r is Ok,
            match r {
                Ok(Some(id)) => !nowait && request_issued(
                    old(self),
                    final(self),
                    channel_id,
                    m@,
                    expected@,
                    id,
                ),
                Ok(None) => nowait && method_sent(old(self), final(self), channel_id, m@),
                Err(e) => *final(self) == *old(self) && (if channel_usable(old(self), channel_id) {
                    e == Error::InvalidState
                } else {
                    unusable_error(old(self), channel_id, e)
                }),
            },
    {
        if nowait {
            match self.send_method(channel_id, m) {
                Ok(()) => Ok(None),
                Err(e) => Err(e),
            }
        } else {
            match self.issue_request(channel_id, m, expected) {
                Ok(id) => Ok(Some(id)),
                Err(e) => Err(e),
            }
        }
    }

    /// Open a channel previously allocated by `create_channel`.
    pub fn channel_open(&mut self, channel_id: u16) -> (r: Result<RequestId, Error>)
        requires
            conn_wf(old(self)),
        ensures
            conn_wf(final(self)),
            old(self).state == ConnectionState::Connected
                && (channel_id as int) < old(self).channels@.len()
                && old(self).channels@[channel_id as int].state == ChannelStatus::Initial
                && registry_open(old(self)) ==> r is Ok,
            match r {
                Ok(id) => {
                    &&& old(self).state == ConnectionState::Connected
                    &&& (channel_id as int) < old(self).channels@.len()
                    &&& old(self).channels@[channel_id as int].state == ChannelStatus::Initial
                    &&& id as int == old(self).requests@.len()
                    &&& final(self).requests@ == old(self).requests@
                        + seq![RequestStatus::Pending]
                    &&& queue_extended(old(self).frame_queue@, final(self).frame_queue@,
                        seq![FrameV::Method(channel_id, MethodV::ChannelOpen {
                            out_of_band: Seq::<u8>::empty(),
                        })])
                    &&& chans_same_except(old(self).channels@, final(self).channels@,
                        channel_id as int)
                    &&& final(self).channels@[channel_id as int].state == ChannelStatus::Opening
                    &&& chan_awaiting_pushed(old(self).channels@[channel_id as int],
                        final(self).channels@[channel_id as int], id,
                        ExpectedV::ChannelOpenOk)
                    &&& conn_core_same(old(self), final(self))
                },
                Err(e) => *final(self) == *old(self) && e == Error::InvalidState,
            },
    {
        if !matches!(self.state, ConnectionState::Connected) {
            return Err(Error::InvalidState);
        }
        if channel_id as usize >= self.channels.len() {
            return Err(Error::InvalidState);
        }
        if !matches!(self.channels[channel_id as usize].state, ChannelStatus::Initial) {
            return Err(Error::InvalidState);
        }
        if self.requests.len() >= 0xFFFF_FFFEusize {
            return Err(Error::InvalidState);
        }
        let id = self.requests.len() as u32;
        self.requests.push(RequestStatus::Pending);
        self.frame_queue.push(Frame::Method(channel_id, Method::ChannelOpen {
            out_of_band: Vec::new(),
        }));
        let c = channel_id as usize;
        let mut chan = self.channels.remove(c);
        chan.state = ChannelStatus::Opening;
        chan.awaiting.push(Awaiting { request_id: id, expected: Expected::ChannelOpenOk });
        self.channels.insert(c, chan);
        proof {
            assert(chans_same_except(old(self).channels@, self.channels@, c as int));
            assert(self.requests@ =~= old(self).requests@ + seq![RequestStatus::Pending]);
        }
        Ok(id)
    }

    /// Ask the broker to close a channel.
    pub fn channel_close(
        &mut self,
        channel_id: u16,
        code: u16,
        reason: Vec<u8>,
        class_id: u16,
        method_id: u16,
    ) -> (r: Result<RequestId, Error>)
        requires
            conn_wf(old(self)),
        ensures
            conn_wf(final(self)),
            channel_usable(old(self), channel_id) && registry_open(old(self))
                ==> r is Ok,
            match r {
                Ok(id) => {
                    &&& channel_usable(old(self), channel_id)
                    &&& id as int == old(self).requests@.len()
                    &&& final(self).requests@ == old(self).requests@
                        + seq![RequestStatus::Pending]
                    &&& queue_extended(old(self).frame_queue@, final(self).frame_queue@,
                        seq![FrameV::Method(channel_id, MethodV::ChannelClose {
                            reply_code: code,
                            reply_text: reason@,
                            class_id,
                            method_id,
                        })])
                    &&& chans_same_except(old(self).channels@, final(self).channels@,
                        channel_id as int)
                    &&& final(self).channels@[channel_id as int].state == ChannelStatus::Closing
                    &&& chan_awaiting_pushed(old(self).channels@[channel_id as int],
                        final(self).channels@[channel_id as int], id,
                        ExpectedV::ChannelCloseOk)
                    &&& conn_core_same(old(self), final(self))
                },
                Err(e) => *final(self) == *old(self) && (if channel_usable(old(self), channel_id) {
                    e == Error::InvalidState
                } else {
                    unusable_error(old(self), channel_id, e)
                }),
            },
    {
        match self.channel_gate(channel_id) {
            Ok(()) => {},
            Err(e) => {
                return Err(e);
            },
        }
        if self.requests.len() >= 0xFFFF_FFFEusize {
            return Err(Error::InvalidState);
        }
        let id = self.requests.len() as u32;
        self.requests.push(RequestStatus::Pending);
        self.frame_queue.push(Frame::Method(channel_id, Method::ChannelClose {
            reply_code: code,
            reply_text: reason,
            class_id,
            method_id,
        }));
        let c = channel_id as usize;
        let mut chan = self.channels.remove(c);
        chan.state = ChannelStatus::Closing;
        chan.awaiting.push(Awaiting { request_id: id, expected: Expected::ChannelCloseOk });
        self.channels.insert(c, chan);
        proof {
            assert(chans_same_except(old(self).channels@, self.channels@, c as int));
            assert(self.requests@ =~= old(self).requests@ + seq![RequestStatus::Pending]);
        }
        Ok(id)
    }

    /// Acknowledge a broker-initiated channel close.
    pub fn channel_close_ok(&mut self, channel_id: u16) -> (r: Result<(), Error>)
        requires
            conn_wf(old(self)),
        ensures
            conn_wf(final(self)),
            old(self).state == ConnectionState::Connected
                && (channel_id as int) < old(self).channels@.len() ==> r is Ok,
            match r {
                Ok(()) => {
                    &&& old(self).state == ConnectionState::Connected
                    &&& (channel_id as int) < old(self).channels@.len()
                    &&& queue_extended(old(self).frame_queue@, final(self).frame_queue@,
                        seq![FrameV::Method(channel_id, MethodV::ChannelCloseOk)])
                    &&& final(self).channels == old(self).channels
                    &&& final(self).requests == old(self).requests
                    &&& conn_core_same(old(self), final(self))
                },
                Err(e) => *final(self) == *old(self) && e == Error::InvalidState,
            },
    {
        if !matches!(self.state, ConnectionState::Connected) {
            return Err(Error::InvalidState);
        }
        if channel_id as usize >= self.channels.len() {
            return Err(Error::InvalidState);
        }
        self.frame_queue.push(Frame::Method(channel_id, Method::ChannelCloseOk));
        Ok(())
    }

    /// Ask the broker to pause or resume deliveries on a channel.
    pub fn channel_flow(&mut self, channel_id: u16, active: bool) -> (r: Result<RequestId, Error>)
        requires
            conn_wf(old(self)),
        ensures
            conn_wf(final(self)),
            channel_usable(old(self), channel_id) && registry_open(old(self))
                ==> r is Ok,
            match r {
                Ok(id) => request_issued(old(self), final(self), channel_id,
                    MethodV::ChannelFlow { active }, ExpectedV::ChannelFlowOk, id),
                Err(e) => *final(self) == *old(self) && (if channel_usable(old(self), channel_id) {
                    e == Error::InvalidState
                } else {
                    unusable_error(old(self), channel_id, e)
                }),
            },
    {
        self.issue_request(channel_id, Method::ChannelFlow { active }, Expected::ChannelFlowOk)
    }

    /// Acknowledge a broker-initiated flow change.
    pub fn channel_flow_ok(&mut self, channel_id: u16, active: bool) -> (r: Result<(), Error>)
        requires
            conn_wf(old(self)),
        ensures
            conn_wf(final(self)),
            channel_usable(old(self), channel_id) ==> r is Ok,
            match r {
                Ok(()) => method_sent(old(self), final(self), channel_id,
                    MethodV::ChannelFlowOk { active }),
                Err(e) => *final(self) == *old(self) && unusable_error(old(self), channel_id, e),
            },
    {
        self.send_method(channel_id, Method::ChannelFlowOk { active })
    }

    /// Request access to a realm.
    pub fn access_request(
        &mut self,
        channel_id: u16,
        realm: Vec<u8>,
        exclusive: bool,
        passive: bool,
        active: bool,
        write: bool,
        read: bool,
    ) -> (r: Result<RequestId, Error>)
        requires
            conn_wf(old(self)),
        ensures
            conn_wf(final(self)),
            channel_usable(old(self), channel_id) && registry_open(old(self))
                ==> r is Ok,
            match r {
                Ok(id) => request_issued(old(self), final(self), channel_id,
                    MethodV::AccessRequest {
                        realm: realm@, exclusive, passive, active, write, read,
                    }, ExpectedV::AccessRequestOk, id),
                Err(e) => *final(self) == *old(self) && (if channel_usable(old(self), channel_id) {
                    e == Error::InvalidState
                } else {
                    unusable_error(old(self), channel_id, e)
                }),
            },
    {
        self.issue_request(
            channel_id,
            Method::AccessRequest { realm, exclusive, passive, active, write, read },
            Expected::AccessRequestOk,
        )
    }

    /// Set quality of service for a channel.
    pub fn basic_qos(
        &mut self,
        channel_id: u16,
        prefetch_size: u32,
        prefetch_count: u16,
        global: bool,
    ) -> (r: Result<RequestId, Error>)
        requires
            conn_wf(old(self)),
        ensures
            conn_wf(final(self)),
            channel_usable(old(self), channel_id) && registry_open(old(self))
                ==> r is Ok,
            match r {
                Ok(id) => request_issued(old(self), final(self), channel_id,
                    MethodV::BasicQos { prefetch_size, prefetch_count, global },
                    ExpectedV::BasicQosOk, id),
                Err(e) => *final(self) == *old(self) && (if channel_usable(old(self), channel_id) {
                    e == Error::InvalidState
                } else {
                    unusable_error(old(self), channel_id, e)
                }),
            },
    {
        self.issue_request(
            channel_id,
            Method::BasicQos { prefetch_size, prefetch_count, global },
            Expected::BasicQosOk,
        )
    }

    /// Acknowledge one delivery (or, with `multiple`, everything up to it).
    pub fn basic_ack(&mut self, channel_id: u16, delivery_tag: u64, multiple: bool) -> (r: Result<
        (),
        Error,
    >)
        requires
            conn_wf(old(self)),
        ensures
            conn_wf(final(self)),
            channel_usable(old(self), channel_id) ==> r is Ok,
            match r {
                Ok(()) => method_sent(old(self), final(self), channel_id,
                    MethodV::BasicAck { delivery_tag, multiple }),
                Err(e) => *final(self) == *old(self) && unusable_error(old(self), channel_id, e),
            },
    {
        self.send_method(channel_id, Method::BasicAck { delivery_tag, multiple })
    }

    /// Negatively acknowledge one delivery (or everything up to it).
    pub fn basic_nack(
        &mut self,
        channel_id: u16,
        delivery_tag: u64,
        multiple: bool,
        requeue: bool,
    ) -> (r: Result<(), Error>)
        requires
            conn_wf(old(self)),
        ensures
            conn_wf(final(self)),
            channel_usable(old(self), channel_id) ==> r is Ok,
            match r {
                Ok(()) => method_sent(old(self), final(self), channel_id,
                    MethodV::BasicNack { delivery_tag, multiple, requeue }),
                Err(e) => *final(self) == *old(self) && unusable_error(old(self), channel_id, e),
            },
    {
        self.send_method(channel_id, Method::BasicNack { delivery_tag, multiple, requeue })
    }

    /// Reject one delivery.
    pub fn basic_reject(&mut self, channel_id: u16, delivery_tag: u64, requeue: bool) -> (r: Result<
        (),
        Error,
    >)
        requires
            conn_wf(old(self)),
        ensures
            conn_wf(final(self)),
            channel_usable(old(self), channel_id) ==> r is Ok,
            match r {
                Ok(()) => method_sent(old(self), final(self), channel_id,
                    MethodV::BasicReject { delivery_tag, requeue }),
                Err(e) => *final(self) == *old(self) && unusable_error(old(self), channel_id, e),
            },
    {
        self.send_method(channel_id, Method::BasicReject { delivery_tag, requeue })
    }

    /// Fetch one message from a queue; the reply is `basic.get-ok` or
    /// `basic.get-empty`.
    pub fn basic_get(&mut self, channel_id: u16, ticket: u16, queue: Vec<u8>, no_ack: bool)
        -> (r: Result<RequestId, Error>)
        requires
            conn_wf(old(self)),
        ensures
            conn_wf(final(self)),
            channel_usable(old(self), channel_id) && registry_open(old(self))
                ==> r is Ok,
            match r {
                Ok(id) => request_issued(old(self), final(self), channel_id,
                    MethodV::BasicGet { ticket, queue: queue@, no_ack },
                    ExpectedV::BasicGetAnswer { queue: queue@ }, id),
                Err(e) => *final(self) == *old(self) && (if channel_usable(old(self), channel_id) {
                    e == Error::InvalidState
                } else {
                    unusable_error(old(self), channel_id, e)
                }),
            },
    {
        let qname = crate::wire::copy_range(&queue, 0, queue.len());
        proof {
            assert(qname@ =~= queue@);
        }
        self.issue_request(
            channel_id,
            Method::BasicGet { ticket, queue, no_ack },
            Expected::BasicGetAnswer { queue: qname },
        )
    }
}

impl Connection {
    /// Declare an exchange.
    pub fn exchange_declare(
        &mut self,
        channel_id: u16,
        ticket: u16,
        exchange: Vec<u8>,
        exchange_type: Vec<u8>,
        passive: bool,
        durable: bool,
        auto_delete: bool,
        internal: bool,
        nowait: bool,
        arguments: FieldTable,
    ) -> (r: Result<Option<RequestId>, Error>)
        requires
            conn_wf(old(self)),
        ensures
            conn_wf(final(self)),
            channel_usable(old(self), channel_id) && (nowait || registry_open(old(self)))
                ==> r is Ok,
            match r {
                Ok(Some(id)) => !nowait && request_issued(old(self), final(self), channel_id,
                    MethodV::ExchangeDeclare {
                        ticket, exchange: exchange@, exchange_type: exchange_type@,
                        passive, durable, auto_delete, internal, nowait,
                        arguments: table_v(arguments@),
                    }, ExpectedV::ExchangeDeclareOk, id),
                Ok(None) => nowait && method_sent(old(self), final(self), channel_id,
                    MethodV::ExchangeDeclare {
                        ticket, exchange: exchange@, exchange_type: exchange_type@,
                        passive, durable, auto_delete, internal, nowait,
                        arguments: table_v(arguments@),
                    }),
                Err(e) => *final(self) == *old(self) && (if channel_usable(old(self), channel_id) {
                    e == Error::InvalidState
                } else {
                    unusable_error(old(self), channel_id, e)
                }),
            },
    {
        self.request_or_send(
            channel_id,
            Method::ExchangeDeclare {
                ticket, exchange, exchange_type, passive, durable, auto_delete, internal,
                nowait, arguments,
            },
            Expected::ExchangeDeclareOk,
            nowait,
        )
    }

    /// Delete an exchange.
    pub fn exchange_delete(
        &mut self,
        channel_id: u16,
        ticket: u16,
        exchange: Vec<u8>,
        if_unused: bool,
        nowait: bool,
    ) -> (r: Result<Option<RequestId>, Error>)
        requires
            conn_wf(old(self)),
        ensures
            conn_wf(final(self)),
            channel_usable(old(self), channel_id) && (nowait || registry_open(old(self)))
                ==> r is Ok,
            match r {
                Ok(Some(id)) => !nowait && request_issued(old(self), final(self), channel_id,
                    MethodV::ExchangeDelete { ticket, exchange: exchange@, if_unused, nowait },
                    ExpectedV::ExchangeDeleteOk, id),
                Ok(None) => nowait && method_sent(old(self), final(self), channel_id,
                    MethodV::ExchangeDelete { ticket, exchange: exchange@, if_unused, nowait }),
                Err(e) => *final(self) == *old(self) && (if channel_usable(old(self), channel_id) {
                    e == Error::InvalidState
                } else {
                    unusable_error(old(self), channel_id, e)
                }),
            },
    {
        self.request_or_send(
            channel_id,
            Method::ExchangeDelete { ticket, exchange, if_unused, nowait },
            Expected::ExchangeDeleteOk,
            nowait,
        )
    }

    /// Bind an exchange to another exchange.
    pub fn exchange_bind(
        &mut self,
        channel_id: u16,
        ticket: u16,
        destination: Vec<u8>,
        source: Vec<u8>,
        routing_key: Vec<u8>,
        nowait: bool,
        arguments: FieldTable,
    ) -> (r: Result<Option<RequestId>, Error>)
        requires
            conn_wf(old(self)),
        ensures
            conn_wf(final(self)),
            channel_usable(old(self), channel_id) && (nowait || registry_open(old(self)))
                ==> r is Ok,
            match r {
                Ok(Some(id)) => !nowait && request_issued(old(self), final(self), channel_id,
                    MethodV::ExchangeBind {
                        ticket, destination: destination@, source: source@,
                        routing_key: routing_key@, nowait, arguments: table_v(arguments@),
                    }, ExpectedV::ExchangeBindOk, id),
                Ok(None) => nowait && method_sent(old(self), final(self), channel_id,
                    MethodV::ExchangeBind {
                        ticket, destination: destination@, source: source@,
                        routing_key: routing_key@, nowait, arguments: table_v(arguments@),
                    }),
                Err(e) => *final(self) == *old(self) && (if channel_usable(old(self), channel_id) {
                    e == Error::InvalidState
                } else {
                    unusable_error(old(self), channel_id, e)
                }),
            },
    {
        self.request_or_send(
            channel_id,
            Method::ExchangeBind { ticket, destination, source, routing_key, nowait, arguments },
            Expected::ExchangeBindOk,
            nowait,
        )
    }

    /// Unbind an exchange from another exchange.
    pub fn exchange_unbind(
        &mut self,
        channel_id: u16,
        ticket: u16,
        destination: Vec<u8>,
        source: Vec<u8>,
        routing_key: Vec<u8>,
        nowait: bool,
        arguments: FieldTable,
    ) -> (r: Result<Option<RequestId>, Error>)
        requires
            conn_wf(old(self)),
        ensures
            conn_wf(final(self)),
            channel_usable(old(self), channel_id) && (nowait || registry_open(old(self)))
                ==> r is Ok,
            match r {
                Ok(Some(id)) => !nowait && request_issued(old(self), final(self), channel_id,
                    MethodV::ExchangeUnbind {
                        ticket, destination: destination@, source: source@,
                        routing_key: routing_key@, nowait, arguments: table_v(arguments@),
                    }, ExpectedV::ExchangeUnbindOk, id),
                Ok(None) => nowait && method_sent(old(self), final(self), channel_id,
                    MethodV::ExchangeUnbind {
                        ticket, destination: destination@, source: source@,
                        routing_key: routing_key@, nowait, arguments: table_v(arguments@),
                    }),
                Err(e) => *final(self) == *old(self) && (if channel_usable(old(self), channel_id) {
                    e == Error::InvalidState
                } else {
                    unusable_error(old(self), channel_id, e)
                }),
            },
    {
        self.request_or_send(
            channel_id,
            Method::ExchangeUnbind { ticket, destination, source, routing_key, nowait, arguments },
            Expected::ExchangeUnbindOk,
            nowait,
        )
    }

    /// Declare a queue; its flags are recorded when `queue.declare-ok`
    /// arrives.
    pub fn queue_declare(
        &mut self,
        channel_id: u16,
        ticket: u16,
        queue: Vec<u8>,
        passive: bool,
        durable: bool,
        exclusive: bool,
        auto_delete: bool,
        nowait: bool,
        arguments: FieldTable,
    ) -> (r: Result<Option<RequestId>, Error>)
        requires
            conn_wf(old(self)),
        ensures
            conn_wf(final(self)),
            channel_usable(old(self), channel_id) && (nowait || registry_open(old(self)))
                ==> r is Ok,
            match r {
                Ok(Some(id)) => !nowait && request_issued(old(self), final(self), channel_id,
                    MethodV::QueueDeclare {
                        ticket, queue: queue@, passive, durable, exclusive, auto_delete,
                        nowait, arguments: table_v(arguments@),
                    }, ExpectedV::QueueDeclareOk { passive, durable, exclusive, auto_delete },
                    id),
                Ok(None) => nowait && method_sent(old(self), final(self), channel_id,
                    MethodV::QueueDeclare {
                        ticket, queue: queue@, passive, durable, exclusive, auto_delete,
                        nowait, arguments: table_v(arguments@),
                    }),
                Err(e) => *final(self) == *old(self) && (if channel_usable(old(self), channel_id) {
                    e == Error::InvalidState
                } else {
                    unusable_error(old(self), channel_id, e)
                }),
            },
    {
        self.request_or_send(
            channel_id,
            Method::QueueDeclare {
                ticket, queue, passive, durable, exclusive, auto_delete, nowait, arguments,
            },
            Expected::QueueDeclareOk { passive, durable, exclusive, auto_delete },
            nowait,
        )
    }

    /// Bind a queue to an exchange.
    pub fn queue_bind(
        &mut self,
        channel_id: u16,
        ticket: u16,
        queue: Vec<u8>,
        exchange: Vec<u8>,
        routing_key: Vec<u8>,
        nowait: bool,
        arguments: FieldTable,
    ) -> (r: Result<Option<RequestId>, Error>)
        requires
            conn_wf(old(self)),
        ensures
            conn_wf(final(self)),
            channel_usable(old(self), channel_id) && (nowait || registry_open(old(self)))
                ==> r is Ok,
            match r {
                Ok(Some(id)) => !nowait && request_issued(old(self), final(self), channel_id,
                    MethodV::QueueBind {
                        ticket, queue: queue@, exchange: exchange@,
                        routing_key: routing_key@, nowait, arguments: table_v(arguments@),
                    }, ExpectedV::QueueBindOk {
                        queue: queue@, exchange: exchange@, routing_key: routing_key@, nowait,
                    }, id),
                Ok(None) => nowait && method_sent(old(self), final(self), channel_id,
                    MethodV::QueueBind {
                        ticket, queue: queue@, exchange: exchange@,
                        routing_key: routing_key@, nowait, arguments: table_v(arguments@),
                    }),
                Err(e) => *final(self) == *old(self) && (if channel_usable(old(self), channel_id) {
                    e == Error::InvalidState
                } else {
                    unusable_error(old(self), channel_id, e)
                }),
            },
    {
        let q2 = crate::wire::copy_range(&queue, 0, queue.len());
        let e2 = crate::wire::copy_range(&exchange, 0, exchange.len());
        let rk2 = crate::wire::copy_range(&routing_key, 0, routing_key.len());
        proof {
            assert(q2@ =~= queue@);
            assert(e2@ =~= exchange@);
            assert(rk2@ =~= routing_key@);
        }
        self.request_or_send(
            channel_id,
            Method::QueueBind { ticket, queue, exchange, routing_key, nowait, arguments },
            Expected::QueueBindOk { queue: q2, exchange: e2, routing_key: rk2, nowait },
            nowait,
        )
    }

    /// Unbind a queue from an exchange.
    pub fn queue_unbind(
        &mut self,
        channel_id: u16,
        ticket: u16,
        queue: Vec<u8>,
        exchange: Vec<u8>,
        routing_key: Vec<u8>,
        arguments: FieldTable,
    ) -> (r: Result<RequestId, Error>)
        requires
            conn_wf(old(self)),
        ensures
            conn_wf(final(self)),
            channel_usable(old(self), channel_id) && registry_open(old(self))
                ==> r is Ok,
            match r {
                Ok(id) => request_issued(old(self), final(self), channel_id,
                    MethodV::QueueUnbind {
                        ticket, queue: queue@, exchange: exchange@,
                        routing_key: routing_key@, arguments: table_v(arguments@),
                    }, ExpectedV::QueueUnbindOk {
                        queue: queue@, exchange: exchange@, routing_key: routing_key@,
                    }, id),
                Err(e) => *final(self) == *old(self) && (if channel_usable(old(self), channel_id) {
                    e == Error::InvalidState
                } else {
                    unusable_error(old(self), channel_id, e)
                }),
            },
    {
        let q2 = crate::wire::copy_range(&queue, 0, queue.len());
        let e2 = crate::wire::copy_range(&exchange, 0, exchange.len());
        let rk2 = crate::wire::copy_range(&routing_key, 0, routing_key.len());
        proof {
            assert(q2@ =~= queue@);
            assert(e2@ =~= exchange@);
            assert(rk2@ =~= routing_key@);
        }
        self.issue_request(
            channel_id,
            Method::QueueUnbind { ticket, queue, exchange, routing_key, arguments },
            Expected::QueueUnbindOk { queue: q2, exchange: e2, routing_key: rk2 },
        )
    }

    /// Purge a queue.
    pub fn queue_purge(&mut self, channel_id: u16, ticket: u16, queue: Vec<u8>, nowait: bool)
        -> (r: Result<Option<RequestId>, Error>)
        requires
            conn_wf(old(self)),
        ensures
            conn_wf(final(self)),
            channel_usable(old(self), channel_id) && (nowait || registry_open(old(self)))
                ==> r is Ok,
            match r {
                Ok(Some(id)) => !nowait && request_issued(old(self), final(self), channel_id,
                    MethodV::QueuePurge { ticket, queue: queue@, nowait },
                    ExpectedV::QueuePurgeOk, id),
                Ok(None) => nowait && method_sent(old(self), final(self), channel_id,
                    MethodV::QueuePurge { ticket, queue: queue@, nowait }),
                Err(e) => *final(self) == *old(self) && (if channel_usable(old(self), channel_id) {
                    e == Error::InvalidState
                } else {
                    unusable_error(old(self), channel_id, e)
                }),
            },
    {
        self.request_or_send(
            channel_id,
            Method::QueuePurge { ticket, queue, nowait },
            Expected::QueuePurgeOk,
            nowait,
        )
    }

    /// Delete a queue.
    pub fn queue_delete(
        &mut self,
        channel_id: u16,
        ticket: u16,
        queue: Vec<u8>,
        if_unused: bool,
        if_empty: bool,
        nowait: bool,
    ) -> (r: Result<Option<RequestId>, Error>)
        requires
            conn_wf(old(self)),
        ensures
            conn_wf(final(self)),
            channel_usable(old(self), channel_id) && (nowait || registry_open(old(self)))
                ==> r is Ok,
            match r {
                Ok(Some(id)) => !nowait && request_issued(old(self), final(self), channel_id,
                    MethodV::QueueDelete { ticket, queue: queue@, if_unused, if_empty, nowait },
                    ExpectedV::QueueDeleteOk { queue: queue@ }, id),
                Ok(None) => nowait && method_sent(old(self), final(self), channel_id,
                    MethodV::QueueDelete { ticket, queue: queue@, if_unused, if_empty, nowait }),
                Err(e) => *final(self) == *old(self) && (if channel_usable(old(self), channel_id) {
                    e == Error::InvalidState
                } else {
                    unusable_error(old(self), channel_id, e)
                }),
            },
    {
        let q2 = crate::wire::copy_range(&queue, 0, queue.len());
        proof {
            assert(q2@ =~= queue@);
        }
        self.request_or_send(
            channel_id,
            Method::QueueDelete { ticket, queue, if_unused, if_empty, nowait },
            Expected::QueueDeleteOk { queue: q2 },
            nowait,
        )
    }

    /// Start a consumer; it is registered on its queue when
    /// `basic.consume-ok` arrives.
    pub fn basic_consume(
        &mut self,
        channel_id: u16,
        ticket: u16,
        queue: Vec<u8>,
        consumer_tag: Vec<u8>,
        no_local: bool,
        no_ack: bool,
        exclusive: bool,
        no_wait: bool,
        arguments: FieldTable,
    ) -> (r: Result<Option<RequestId>, Error>)
        requires
            conn_wf(old(self)),
        ensures
            conn_wf(final(self)),
            channel_usable(old(self), channel_id) && (no_wait || registry_open(old(self)))
                ==> r is Ok,
            match r {
                Ok(Some(id)) => !no_wait && request_issued(old(self), final(self), channel_id,
                    MethodV::BasicConsume {
                        ticket, queue: queue@, consumer_tag: consumer_tag@, no_local, no_ack,
                        exclusive, nowait: no_wait, arguments: table_v(arguments@),
                    }, ExpectedV::BasicConsumeOk {
                        queue: queue@, no_local, no_ack, exclusive, nowait: no_wait,
                    }, id),
                Ok(None) => no_wait && method_sent(old(self), final(self), channel_id,
                    MethodV::BasicConsume {
                        ticket, queue: queue@, consumer_tag: consumer_tag@, no_local, no_ack,
                        exclusive, nowait: no_wait, arguments: table_v(arguments@),
                    }),
                Err(e) => *final(self) == *old(self) && (if channel_usable(old(self), channel_id) {
                    e == Error::InvalidState
                } else {
                    unusable_error(old(self), channel_id, e)
                }),
            },
    {
        let q2 = crate::wire::copy_range(&queue, 0, queue.len());
        proof {
            assert(q2@ =~= queue@);
        }
        self.request_or_send(
            channel_id,
            Method::BasicConsume {
                ticket, queue, consumer_tag, no_local, no_ack, exclusive, nowait: no_wait,
                arguments,
            },
            Expected::BasicConsumeOk {
                queue: q2, no_local, no_ack, exclusive, nowait: no_wait,
            },
            no_wait,
        )
    }

    /// Enable publisher confirms on a channel.  With `nowait` the broker
    /// sends no reply, so the channel enters confirm mode at once.
    pub fn confirm_select(&mut self, channel_id: u16, nowait: bool) -> (r: Result<
        Option<RequestId>,
        Error,
    >)
        requires
            conn_wf(old(self)),
        ensures
            conn_wf(final(self)),
            channel_usable(old(self), channel_id) && (nowait || registry_open(old(self)))
                ==> r is Ok,
            match r {
                Ok(Some(id)) => !nowait && request_issued(old(self), final(self), channel_id,
                    MethodV::ConfirmSelect { nowait }, ExpectedV::ConfirmSelectOk, id),
                Ok(None) => {
                    &&& nowait
                    &&& channel_usable(old(self), channel_id)
                    &&& queue_extended(old(self).frame_queue@, final(self).frame_queue@,
                        seq![FrameV::Method(channel_id, MethodV::ConfirmSelect { nowait })])
                    &&& final(self).requests == old(self).requests
                    &&& chans_same_except(old(self).channels@, final(self).channels@,
                        channel_id as int)
                    &&& final(self).channels@[channel_id as int].confirm
                    &&& final(self).channels@[channel_id as int].next_publish_tag == 1
                    &&& final(self).channels@[channel_id as int].unacked@ == Seq::<u64>::empty()
                    &&& final(self).channels@[channel_id as int].acked@ == Seq::<u64>::empty()
                    &&& final(self).channels@[channel_id as int].nacked@ == Seq::<u64>::empty()
                    &&& final(self).channels@[channel_id as int].state
                        == old(self).channels@[channel_id as int].state
                    &&& final(self).channels@[channel_id as int].queues
                        == old(self).channels@[channel_id as int].queues
                    &&& final(self).channels@[channel_id as int].send_flow
                        == old(self).channels@[channel_id as int].send_flow
                    &&& final(self).channels@[channel_id as int].awaiting
                        == old(self).channels@[channel_id as int].awaiting
                    &&& final(self).channels@[channel_id as int].content
                        == old(self).channels@[channel_id as int].content
                    &&& conn_core_same(old(self), final(self))
                },
                Err(e) => *final(self) == *old(self) && (if channel_usable(old(self), channel_id) {
                    e == Error::InvalidState
                } else {
                    unusable_error(old(self), channel_id, e)
                }),
            },
    {
        if nowait {
            match self.channel_gate(channel_id) {
                Ok(()) => {},
                Err(e) => {
                    return Err(e);
                },
            }
            self.frame_queue.push(Frame::Method(channel_id, Method::ConfirmSelect { nowait }));
            let c = channel_id as usize;
            let mut chan = self.channels.remove(c);
            chan.confirm = true;
            chan.next_publish_tag = 1;
            chan.unacked = Vec::new();
            chan.acked = Vec::new();
            chan.nacked = Vec::new();
            self.channels.insert(c, chan);
            proof {
                assert(chans_same_except(old(self).channels@, self.channels@, c as int));
            }
            Ok(None)
        } else {
            match self.issue_request(
                channel_id,
                Method::ConfirmSelect { nowait },
                Expected::ConfirmSelectOk,
            ) {
                Ok(id) => Ok(Some(id)),
                Err(e) => Err(e),
            }
        }
    }
}

// ---------------------------------------------------------------------------
// Publisher confirms
// ---------------------------------------------------------------------------

/// Whether an ack or nack for `tag` (with or without `multiple`) covers `t`.
pub open spec fn covered(t: u64, tag: u64, multiple: bool) -> bool {
    if multiple {
        t <= tag
    } else {
        t == tag
    }
}

/// The tags that stay outstanding after an ack or nack.
pub open spec fn confirm_keep(s: Seq<u64>, tag: u64, multiple: bool) -> Seq<u64>
    decreases s.len(),
{
    if s.len() == 0 {
        Seq::empty()
    } else if covered(s[0], tag, multiple) {
        confirm_keep(s.skip(1), tag, multiple)
    } else {
        seq![s[0]] + confirm_keep(s.skip(1), tag, multiple)
    }
}

/// The tags an ack or nack resolves.
pub open spec fn confirm_take(s: Seq<u64>, tag: u64, multiple: bool) -> Seq<u64>
    decreases s.len(),
{
    if s.len() == 0 {
        Seq::empty()
    } else if covered(s[0], tag, multiple) {
        seq![s[0]] + confirm_take(s.skip(1), tag, multiple)
    } else {
        confirm_take(s.skip(1), tag, multiple)
    }
}

/// A set of tags with every occurrence of one value removed.
pub open spec fn remove_tag(s: Seq<u64>, x: u64) -> Seq<u64>
    decreases s.len(),
{
    if s.len() == 0 {
        Seq::empty()
    } else if s[0] == x {
        remove_tag(s.skip(1), x)
    } else {
        seq![s[0]] + remove_tag(s.skip(1), x)
    }
}

/// The frames of one payload, cut into body fragments of at most `chunk`
/// bytes.
pub open spec fn body_frames(c: u16, p: Seq<u8>, chunk: nat) -> Seq<FrameV>
    decreases p.len(),
{
    if chunk == 0 || p.len() == 0 {
        Seq::empty()
    } else if p.len() <= chunk {
        seq![FrameV::Body(c, p)]
    } else {
        seq![FrameV::Body(c, p.take(chunk as int))] + body_frames(c, p.skip(chunk as int), chunk)
    }
}

impl Connection {
    /// Queue a publish.  On a confirm channel the publish is assigned the
    /// next publisher delivery tag, which enters `unacked`.
    pub fn basic_publish(
        &mut self,
        channel_id: u16,
        ticket: u16,
        exchange: Vec<u8>,
        routing_key: Vec<u8>,
        mandatory: bool,
        immediate: bool,
    ) -> (r: Result<Option<u64>, Error>)
        requires
            conn_wf(old(self)),
        ensures
            conn_wf(final(self)),
            channel_usable(old(self), channel_id)
                && old(self).channels@[channel_id as int].send_flow
                && (old(self).channels@[channel_id as int].confirm
                    ==> old(self).channels@[channel_id as int].next_publish_tag
                        < 0xFFFF_FFFF_FFFF_FFFFu64) ==> r is Ok,
            match r {
                Ok(tagopt) => {
                    &&& channel_usable(old(self), channel_id)
                    &&& old(self).channels@[channel_id as int].send_flow
                    &&& queue_extended(old(self).frame_queue@, final(self).frame_queue@,
                        seq![FrameV::Method(channel_id, MethodV::BasicPublish {
                            ticket, exchange: exchange@, routing_key: routing_key@,
                            mandatory, immediate,
                        })])
                    &&& final(self).requests == old(self).requests
                    &&& conn_core_same(old(self), final(self))
                    &&& match tagopt {
                        Some(tag) => {
                            &&& old(self).channels@[channel_id as int].confirm
                            &&& tag == old(self).channels@[channel_id as int].next_publish_tag
                            &&& chans_same_except(old(self).channels@, final(self).channels@,
                                channel_id as int)
                            &&& final(self).channels@[channel_id as int].unacked@
                                == old(self).channels@[channel_id as int].unacked@.push(tag)
                            &&& final(self).channels@[channel_id as int].next_publish_tag
                                == tag + 1
                            &&& final(self).channels@[channel_id as int].acked
                                == old(self).channels@[channel_id as int].acked
                            &&& final(self).channels@[channel_id as int].nacked
                                == old(self).channels@[channel_id as int].nacked
                            &&& final(self).channels@[channel_id as int].state
                                == old(self).channels@[channel_id as int].state
                            &&& final(self).channels@[channel_id as int].confirm
                            &&& final(self).channels@[channel_id as int].queues
                                == old(self).channels@[channel_id as int].queues
                            &&& final(self).channels@[channel_id as int].awaiting
                                == old(self).channels@[channel_id as int].awaiting
                            &&& final(self).channels@[channel_id as int].content
                                == old(self).channels@[channel_id as int].content
                            &&& final(self).channels@[channel_id as int].send_flow
                        },
                        None => {
                            &&& !old(self).channels@[channel_id as int].confirm
                            &&& final(self).channels == old(self).channels
                        },
                    }
                },
                Err(e) => *final(self) == *old(self) && (
                    if !channel_usable(old(self), channel_id) {
                        unusable_error(old(self), channel_id, e)
                    } else {
                        e == Error::InvalidState
                    }
                ),
            },
    {
        match self.channel_gate(channel_id) {
            Ok(()) => {},
            Err(e) => {
                return Err(e);
            },
        }
        let c = channel_id as usize;
        if !self.channels[c].send_flow {
            return Err(Error::InvalidState);
        }
        if self.channels[c].confirm && self.channels[c].next_publish_tag == 0xFFFF_FFFF_FFFF_FFFFu64 {
            return Err(Error::InvalidState);
        }
        self.frame_queue.push(Frame::Method(channel_id, Method::BasicPublish {
            ticket,
            exchange,
            routing_key,
            mandatory,
            immediate,
        }));
        if self.channels[c].confirm {
            let mut chan = self.channels.remove(c);
            let tag = chan.next_publish_tag;
            chan.unacked.push(tag);
            chan.next_publish_tag = tag + 1;
            proof {
                assert(forall|i: int| 0 <= i < old(self).channels@[c as int].unacked@.len()
                    ==> old(self).channels@[c as int].unacked@[i] != tag);
                assert(chan.unacked@.no_duplicates());
                assert(chan_wf(chan));
            }
            self.channels.insert(c, chan);
            proof {
                assert(chans_same_except(old(self).channels@, self.channels@, c as int));
            }
            Ok(Some(tag))
        } else {
            Ok(None)
        }
    }

    /// Queue the content frames of one publish: a header frame carrying the
    /// total body size, then the payload cut into fragments of at most
    /// `frame_max - 8` bytes.
    pub fn send_content_frames(
        &mut self,
        channel_id: u16,
        class_id: u16,
        payload: &Vec<u8>,
        properties: BasicProperties,
    ) -> (r: Result<(), Error>)
        requires
            conn_wf(old(self)),
        ensures
            conn_wf(final(self)),
            match r {
                Ok(()) => {
                    &&& old(self).configuration.frame_max > 8
                    &&& queue_extended(old(self).frame_queue@, final(self).frame_queue@,
                        seq![FrameV::Header(channel_id, class_id, ContentHeaderV {
                            body_size: payload@.len() as u64,
                            properties: properties@,
                        })] + body_frames(channel_id, payload@,
                            (old(self).configuration.frame_max - 8) as nat))
                    &&& final(self).channels == old(self).channels
                    &&& final(self).requests == old(self).requests
                    &&& conn_core_same(old(self), final(self))
                },
                Err(e) => {
                    &&& *final(self) == *old(self)
                    &&& old(self).configuration.frame_max <= 8
                    &&& e == Error::InvalidState
                },
            },
    {
        if self.configuration.frame_max <= 8 {
            return Err(Error::InvalidState);
        }
        let chunk: usize = (self.configuration.frame_max - 8) as usize;
        let hdr = ContentHeader { body_size: payload.len() as u64, properties };
        self.frame_queue.push(Frame::Header(channel_id, class_id, hdr));
        let ghost hdr_v = seq![FrameV::Header(channel_id, class_id, ContentHeaderV {
            body_size: payload@.len() as u64,
            properties: properties@,
        })];
        let ghost pre_q = old(self).frame_queue@;
        let mut offset: usize = 0;
        let ghost done: Seq<FrameV> = Seq::empty();
        proof {
            assert(queue_extended(pre_q, self.frame_queue@, hdr_v + done));
            assert(hdr_v + done =~= hdr_v);
            assert(payload@.skip(0) =~= payload@);
            assert(Seq::<FrameV>::empty() + body_frames(channel_id, payload@, chunk as nat)
                =~= body_frames(channel_id, payload@, chunk as nat));
        }
        while offset < payload.len()
            invariant
                conn_wf(self),
                chunk == (old(self).configuration.frame_max - 8) as usize,
                chunk > 0,
                offset <= payload@.len(),
                queue_extended(pre_q, self.frame_queue@, hdr_v + done),
                done + body_frames(channel_id, payload@.skip(offset as int), chunk as nat)
                    == body_frames(channel_id, payload@, chunk as nat),
                self.channels == old(self).channels,
                self.requests == old(self).requests,
                conn_core_same(old(self), self),
                self.configuration.frame_max == old(self).configuration.frame_max,
            decreases payload@.len() - offset,
        {
            let remaining = payload.len() - offset;
            let step = if remaining <= chunk {
                remaining
            } else {
                chunk
            };
            let data = crate::wire::copy_range(payload, offset, offset + step);
            let ghost rem_seq = payload@.skip(offset as int);
            proof {
                if rem_seq.len() <= chunk as nat {
                    assert(data@ =~= rem_seq);
                } else {
                    assert(data@ =~= rem_seq.take(chunk as int));
                }
            }
            self.frame_queue.push(Frame::Body(channel_id, data));
            proof {
                let fv = FrameV::Body(channel_id, data@);
                if rem_seq.len() <= chunk as nat {
                    assert(body_frames(channel_id, rem_seq, chunk as nat) == seq![fv]);
                    assert((done + seq![fv])
                        + body_frames(channel_id, payload@.skip((offset + step) as int),
                            chunk as nat)
                        =~= done + body_frames(channel_id, rem_seq, chunk as nat));
                } else {
                    assert(rem_seq.skip(chunk as int)
                        =~= payload@.skip((offset + step) as int));
                    assert(body_frames(channel_id, rem_seq, chunk as nat)
                        == seq![fv] + body_frames(channel_id, rem_seq.skip(chunk as int),
                            chunk as nat));
                    assert((done + seq![fv])
                        + body_frames(channel_id, payload@.skip((offset + step) as int),
                            chunk as nat)
                        =~= done + body_frames(channel_id, rem_seq, chunk as nat));
                }
                assert(queue_extended(pre_q, self.frame_queue@, hdr_v + (done + seq![fv]))) by {
                    assert(hdr_v + (done + seq![fv]) =~= (hdr_v + done) + seq![fv]);
                };
            }
            offset = offset + step;
            proof {
                done = done + seq![FrameV::Body(channel_id, data@)];
            }
        }
        proof {
            assert(payload@.skip(offset as int).len() == 0);
            assert(body_frames(channel_id, payload@.skip(offset as int), chunk as nat)
                == Seq::<FrameV>::empty());
            assert(done + Seq::<FrameV>::empty() =~= done);
            assert(hdr_v + done =~= seq![FrameV::Header(channel_id, class_id, ContentHeaderV {
                body_size: payload@.len() as u64,
                properties: properties@,
            })] + body_frames(channel_id, payload@, chunk as nat));
        }
        Ok(())
    }
}

proof fn lemma_remove_tag_absent(s: Seq<u64>, x: u64)
    requires
        forall|i: int| 0 <= i < s.len() ==> s[i] != x,
    ensures
        remove_tag(s, x) == s,
    decreases s.len(),
{
    if s.len() > 0 {
        assert(forall|i: int| 0 <= i < s.skip(1).len() ==> s.skip(1)[i] == s[i + 1]);
        lemma_remove_tag_absent(s.skip(1), x);
        assert(seq![s[0]] + s.skip(1) =~= s);
    }
}

/// Removing the only occurrence of `x` from a duplicate-free sequence is
/// cutting it out at its index.
proof fn lemma_filter_remove_unique(s: Seq<u64>, x: u64, k: int)
    requires
        0 <= k < s.len(),
        s[k] == x,
        forall|i: int| 0 <= i < s.len() && i != k ==> s[i] != x,
    ensures
        remove_tag(s, x) == s.take(k) + s.skip(k + 1),
    decreases s.len(),
{
    if k == 0 {
        assert(forall|i: int| 0 <= i < s.skip(1).len() ==> s.skip(1)[i] == s[i + 1]);
        lemma_remove_tag_absent(s.skip(1), x);
        assert(s.take(0) + s.skip(1) =~= s.skip(1));
    } else {
        assert(forall|i: int| 0 <= i < s.skip(1).len() ==> s.skip(1)[i] == s[i + 1]);
        lemma_filter_remove_unique(s.skip(1), x, k - 1);
        assert(s.take(k) + s.skip(k + 1)
            =~= seq![s[0]] + (s.skip(1).take(k - 1) + s.skip(1).skip(k)));
    }
}

/// What a poll of a publisher-confirm observes.
#[derive(Clone, Copy, Debug, PartialEq, Eq, Structural)]
pub enum ConfirmPoll {
    /// The channel is not in confirm mode.
    NotConfirm,
    /// Neither an ack nor a nack has arrived for the tag.
    Pending,
    /// The broker acknowledged the publish; the observation consumes it.
    Acked,
    /// The broker rejected the publish; the observation consumes it.
    Nacked,
}

impl Connection {
    /// Observe the fate of one published delivery tag on a confirm channel.
    /// The first observation of an ack or nack removes the tag, so each
    /// publish resolves at most once.
    pub fn poll_publish_confirm(&mut self, channel_id: u16, delivery_tag: u64) -> (r: ConfirmPoll)
        requires
            conn_wf(old(self)),
        ensures
            conn_wf(final(self)),
            ({
                let cs = old(self).channels@;
                if channel_id as int >= cs.len() || !cs[channel_id as int].confirm {
                    r == ConfirmPoll::NotConfirm && *final(self) == *old(self)
                } else {
                    let ch = cs[channel_id as int];
                    if ch.acked@.contains(delivery_tag) {
                        &&& r == ConfirmPoll::Acked
                        &&& chans_same_except(cs, final(self).channels@, channel_id as int)
                        &&& final(self).channels@[channel_id as int].acked@
                            == remove_tag(ch.acked@, delivery_tag)
                        &&& final(self).channels@[channel_id as int].nacked
                            == ch.nacked
                        &&& final(self).channels@[channel_id as int].unacked == ch.unacked
                        &&& final(self).channels@[channel_id as int].state == ch.state
                        &&& final(self).channels@[channel_id as int].confirm == ch.confirm
                        &&& final(self).channels@[channel_id as int].next_publish_tag
                            == ch.next_publish_tag
                        &&& final(self).channels@[channel_id as int].send_flow == ch.send_flow
                        &&& final(self).channels@[channel_id as int].queues == ch.queues
                        &&& final(self).channels@[channel_id as int].awaiting == ch.awaiting
                        &&& final(self).channels@[channel_id as int].content == ch.content
                        &&& final(self).channels@[channel_id as int].current_return
                            == ch.current_return
                        &&& final(self).channels@[channel_id as int].error_code == ch.error_code
                        &&& final(self).channels@[channel_id as int].error_reason
                            == ch.error_reason
                        &&& final(self).frame_queue == old(self).frame_queue
                        &&& final(self).requests == old(self).requests
                        &&& conn_core_same(old(self), final(self))
                    } else if ch.nacked@.contains(delivery_tag) {
                        &&& r == ConfirmPoll::Nacked
                        &&& chans_same_except(cs, final(self).channels@, channel_id as int)
                        &&& final(self).channels@[channel_id as int].nacked@
                            == remove_tag(ch.nacked@, delivery_tag)
                        &&& final(self).channels@[channel_id as int].acked == ch.acked
                        &&& final(self).channels@[channel_id as int].unacked == ch.unacked
                        &&& final(self).channels@[channel_id as int].state == ch.state
                        &&& final(self).channels@[channel_id as int].confirm == ch.confirm
                        &&& final(self).channels@[channel_id as int].next_publish_tag
                            == ch.next_publish_tag
                        &&& final(self).channels@[channel_id as int].send_flow == ch.send_flow
                        &&& final(self).channels@[channel_id as int].queues == ch.queues
                        &&& final(self).channels@[channel_id as int].awaiting == ch.awaiting
                        &&& final(self).channels@[channel_id as int].content == ch.content
                        &&& final(self).channels@[channel_id as int].current_return
                            == ch.current_return
                        &&& final(self).channels@[channel_id as int].error_code == ch.error_code
                        &&& final(self).channels@[channel_id as int].error_reason
                            == ch.error_reason
                        &&& final(self).frame_queue == old(self).frame_queue
                        &&& final(self).requests == old(self).requests
                        &&& conn_core_same(old(self), final(self))
                    } else {
                        r == ConfirmPoll::Pending && *final(self) == *old(self)
                    }
                }
            }),
    {
        if channel_id as usize >= self.channels.len() {
            return ConfirmPoll::NotConfirm;
        }
        let c = channel_id as usize;
        if !self.channels[c].confirm {
            return ConfirmPoll::NotConfirm;
        }
        proof {
            assert((channel_id as int) < old(self).channels@.len());
            assert(old(self).channels@[channel_id as int].confirm);
        }
        let mut k: usize = 0;
        let n = self.channels[c].acked.len();
        while k < n
            invariant
                conn_wf(self),
                *self == *old(self),
                c == channel_id as usize,
                c < self.channels@.len(),
                n == self.channels@[c as int].acked@.len(),
                old(self).channels@[c as int].confirm,
                k <= n,
                forall|j: int| 0 <= j < k ==> self.channels@[c as int].acked@[j] != delivery_tag,
            decreases n - k,
        {
            if self.channels[c].acked[k] == delivery_tag {
                proof {
                    assert(old(self).channels@[c as int].acked@[k as int] == delivery_tag);
                    assert(old(self).channels@[c as int].acked@.contains(delivery_tag));
                }
                let mut chan = self.channels.remove(c);
                chan.acked.remove(k);
                proof {
                    assert(forall|i: int|
                        0 <= i < old(self).channels@[c as int].acked@.len() && i != k as int
                            ==> old(self).channels@[c as int].acked@[i] != delivery_tag);
                    lemma_filter_remove_unique(
                        old(self).channels@[c as int].acked@,
                        delivery_tag,
                        k as int,
                    );
                    assert(chan.acked@ =~= old(self).channels@[c as int].acked@.take(k as int)
                        + old(self).channels@[c as int].acked@.skip(k as int + 1));
                    assert(chan.acked@.no_duplicates());
                    assert(forall|i: int| 0 <= i < chan.acked@.len()
                        ==> 0 < #[trigger] chan.acked@[i] < chan.next_publish_tag
                            && !chan.nacked@.contains(chan.acked@[i]));
                    assert(forall|i: int| 0 <= i < chan.unacked@.len()
                        ==> !chan.acked@.contains(#[trigger] chan.unacked@[i]));
                    assert(chan_wf(chan));
                }
                self.channels.insert(c, chan);
                proof {
                    assert(chans_same_except(old(self).channels@, self.channels@, c as int));
                    assert(!(channel_id as int >= old(self).channels@.len()
                        || !old(self).channels@[channel_id as int].confirm));
                }
                return ConfirmPoll::Acked;
            }
            k = k + 1;
        }
        proof {
            assert(!old(self).channels@[c as int].acked@.contains(delivery_tag));
        }
        let mut k2: usize = 0;
        let n2 = self.channels[c].nacked.len();
        while k2 < n2
            invariant
                conn_wf(self),
                *self == *old(self),
                c == channel_id as usize,
                c < self.channels@.len(),
                n2 == self.channels@[c as int].nacked@.len(),
                old(self).channels@[c as int].confirm,
                k2 <= n2,
                forall|j: int| 0 <= j < k2 ==> self.channels@[c as int].nacked@[j] != delivery_tag,
            decreases n2 - k2,
        {
            if self.channels[c].nacked[k2] == delivery_tag {
                proof {
                    assert(old(self).channels@[c as int].nacked@[k2 as int] == delivery_tag);
                    assert(old(self).channels@[c as int].nacked@.contains(delivery_tag));
                }
                let mut chan = self.channels.remove(c);
                chan.nacked.remove(k2);
                proof {
                    assert(forall|i: int|
                        0 <= i < old(self).channels@[c as int].nacked@.len() && i != k2 as int
                            ==> old(self).channels@[c as int].nacked@[i] != delivery_tag);
                    lemma_filter_remove_unique(
                        old(self).channels@[c as int].nacked@,
                        delivery_tag,
                        k2 as int,
                    );
                    assert(chan.nacked@ =~= old(self).channels@[c as int].nacked@.take(k2 as int)
                        + old(self).channels@[c as int].nacked@.skip(k2 as int + 1));
                    assert(chan.nacked@.no_duplicates());
                    assert(forall|i: int| 0 <= i < chan.acked@.len()
                        ==> !chan.nacked@.contains(#[trigger] chan.acked@[i]));
                    assert(forall|i: int| 0 <= i < chan.nacked@.len()
                        ==> 0 < #[trigger] chan.nacked@[i] < chan.next_publish_tag);
                    assert(forall|i: int| 0 <= i < chan.unacked@.len()
                        ==> !chan.nacked@.contains(#[trigger] chan.unacked@[i]));
                    assert(chan_wf(chan));
                }
                self.channels.insert(c, chan);
                proof {
                    assert(chans_same_except(old(self).channels@, self.channels@, c as int));
                    assert(!(channel_id as int >= old(self).channels@.len()
                        || !old(self).channels@[channel_id as int].confirm));
                }
                return ConfirmPoll::Nacked;
            }
            k2 = k2 + 1;
        }
        proof {
            assert(!old(self).channels@[c as int].nacked@.contains(delivery_tag));
        }
        ConfirmPoll::Pending
    }

    /// Pop the oldest completed delivery of a consumer.
    pub fn next_delivery(
        &mut self,
        channel_id: u16,
        queue: &Vec<u8>,
        consumer_tag: &Vec<u8>,
    ) -> (r: Option<Delivery>)
        requires
            conn_wf(old(self)),
        ensures
            conn_wf(final(self)),
            chans_same_except(old(self).channels@, final(self).channels@, channel_id as int),
            final(self).frame_queue == old(self).frame_queue,
            final(self).requests == old(self).requests,
            conn_core_same(old(self), final(self)),
            channel_id as int >= old(self).channels@.len() ==> r is None && *final(self)
                == *old(self),
            (channel_id as int) < old(self).channels@.len() ==> {
                let qs = old(self).channels@[channel_id as int].queues@;
                match queue_index(qs, queue@) {
                    None => r is None && *final(self) == *old(self),
                    Some(qi) => {
                        &&& content_frame_same(old(self).channels@[channel_id as int],
                            final(self).channels@[channel_id as int])
                        &&& final(self).channels@[channel_id as int].content
                            == old(self).channels@[channel_id as int].content
                        &&& final(self).channels@[channel_id as int].current_return
                            == old(self).channels@[channel_id as int].current_return
                        &&& final(self).channels@[channel_id as int].queues@.len() == qs.len()
                        &&& forall|j: int| 0 <= j < qs.len() && j != qi
                            ==> final(self).channels@[channel_id as int].queues@[j] == qs[j]
                        &&& match consumer_index(qs[qi].consumers@, consumer_tag@) {
                            None => r is None && *final(self) == *old(self),
                            Some(ci) => {
                                if qs[qi].consumers@[ci].messages@.len() == 0 {
                                    r is None && *final(self) == *old(self)
                                } else {
                                    &&& r == Some(qs[qi].consumers@[ci].messages@[0])
                                    &&& queue_frame_same(qs[qi], final(self).channels@[
                                        channel_id as int
                                    ].queues@[qi])
                                    &&& final(self).channels@[
                                        channel_id as int
                                    ].queues@[qi].consumers@.len() == qs[qi].consumers@.len()
                                    &&& forall|j2: int| 0 <= j2 < qs[qi].consumers@.len()
                                        && j2 != ci ==> final(self).channels@[
                                        channel_id as int
                                    ].queues@[qi].consumers@[j2] == qs[qi].consumers@[j2]
                                    &&& consumer_frame_same(qs[qi].consumers@[ci],
                                        final(self).channels@[
                                        channel_id as int
                                    ].queues@[qi].consumers@[ci])
                                    &&& final(self).channels@[
                                        channel_id as int
                                    ].queues@[qi].consumers@[ci].messages@
                                        == qs[qi].consumers@[ci].messages@.skip(1)
                                    &&& final(self).channels@[
                                        channel_id as int
                                    ].queues@[qi].consumers@[ci].current_message
                                        == qs[qi].consumers@[ci].current_message
                                    &&& final(self).channels@[
                                        channel_id as int
                                    ].queues@[qi].get_messages
                                        == qs[qi].get_messages
                                    &&& final(self).channels@[
                                        channel_id as int
                                    ].queues@[qi].current_get_message
                                        == qs[qi].current_get_message
                                }
                            },
                        }
                    },
                }
            },
    {
        if channel_id as usize >= self.channels.len() {
            return None;
        }
        let c = channel_id as usize;
        let qi = match find_queue(&self.channels[c].queues, queue) {
            None => {
                return None;
            },
            Some(qi) => qi,
        };
        let ci = match find_consumer(&self.channels[c].queues[qi].consumers, consumer_tag) {
            None => {
                return None;
            },
            Some(ci) => ci,
        };
        if self.channels[c].queues[qi].consumers[ci].messages.len() == 0 {
            return None;
        }
        let mut chan = self.channels.remove(c);
        let mut q = chan.queues.remove(qi);
        let mut con = q.consumers.remove(ci);
        let d = con.messages.remove(0);
        proof {
            assert(con.messages@
                =~= old(self).channels@[c as int].queues@[qi as int].consumers@[
                ci as int].messages@.skip(1));
        }
        q.consumers.insert(ci, con);
        chan.queues.insert(qi, q);
        self.channels.insert(c, chan);
        proof {
            assert(chans_same_except(old(self).channels@, self.channels@, c as int));
            assert(forall|j: int|
                0 <= j < old(self).channels@[c as int].queues@.len() && j != qi as int
                    ==> self.channels@[c as int].queues@[j]
                        == old(self).channels@[c as int].queues@[j]);
        }
        Some(d)
    }

    /// Pop the oldest completed basic-get response of a queue.
    pub fn next_basic_get_message(&mut self, channel_id: u16, queue: &Vec<u8>) -> (r: Option<
        BasicGetMessage,
    >)
        requires
            conn_wf(old(self)),
        ensures
            conn_wf(final(self)),
            chans_same_except(old(self).channels@, final(self).channels@, channel_id as int),
            final(self).frame_queue == old(self).frame_queue,
            final(self).requests == old(self).requests,
            conn_core_same(old(self), final(self)),
            channel_id as int >= old(self).channels@.len() ==> r is None && *final(self)
                == *old(self),
            (channel_id as int) < old(self).channels@.len() ==> {
                let qs = old(self).channels@[channel_id as int].queues@;
                match queue_index(qs, queue@) {
                    None => r is None && *final(self) == *old(self),
                    Some(qi) => {
                        &&& content_frame_same(old(self).channels@[channel_id as int],
                            final(self).channels@[channel_id as int])
                        &&& final(self).channels@[channel_id as int].content
                            == old(self).channels@[channel_id as int].content
                        &&& final(self).channels@[channel_id as int].current_return
                            == old(self).channels@[channel_id as int].current_return
                        &&& final(self).channels@[channel_id as int].queues@.len() == qs.len()
                        &&& forall|j: int| 0 <= j < qs.len() && j != qi
                            ==> final(self).channels@[channel_id as int].queues@[j] == qs[j]
                        &&& if qs[qi].get_messages@.len() == 0 {
                            r is None && *final(self) == *old(self)
                        } else {
                            &&& r == Some(qs[qi].get_messages@[0])
                            &&& queue_frame_same(qs[qi],
                                final(self).channels@[channel_id as int].queues@[qi])
                            &&& final(self).channels@[channel_id as int].queues@[qi].get_messages@
                                == qs[qi].get_messages@.skip(1)
                            &&& final(self).channels@[channel_id as int].queues@[qi].consumers
                                == qs[qi].consumers
                            &&& final(self).channels@[
                                channel_id as int
                            ].queues@[qi].current_get_message == qs[qi].current_get_message
                        }
                    },
                }
            },
    {
        if channel_id as usize >= self.channels.len() {
            return None;
        }
        let c = channel_id as usize;
        let qi = match find_queue(&self.channels[c].queues, queue) {
            None => {
                return None;
            },
            Some(qi) => qi,
        };
        if self.channels[c].queues[qi].get_messages.len() == 0 {
            return None;
        }
        let mut chan = self.channels.remove(c);
        let mut q = chan.queues.remove(qi);
        let m = q.get_messages.remove(0);
        proof {
            assert(q.get_messages@
                =~= old(self).channels@[c as int].queues@[qi as int].get_messages@.skip(1));
        }
        chan.queues.insert(qi, q);
        self.channels.insert(c, chan);
        proof {
            assert(chans_same_except(old(self).channels@, self.channels@, c as int));
            assert(forall|j: int|
                0 <= j < old(self).channels@[c as int].queues@.len() && j != qi as int
                    ==> self.channels@[c as int].queues@[j]
                        == old(self).channels@[c as int].queues@[j]);
        }
        Some(m)
    }
}

/// Effect of an inbound `basic.ack` or `basic.nack` on a confirm channel:
/// the covered tags move from `unacked` into `acked` (or `nacked`), in
/// order; nothing else changes.
pub open spec fn ack_applied(
    pre: ChannelState,
    post: ChannelState,
    tag: u64,
    multiple: bool,
    negative: bool,
) -> bool {
    &&& post.unacked@ == confirm_keep(pre.unacked@, tag, multiple)
    &&& if negative {
        post.nacked@ == pre.nacked@ + confirm_take(pre.unacked@, tag, multiple)
            && post.acked == pre.acked
    } else {
        post.acked@ == pre.acked@ + confirm_take(pre.unacked@, tag, multiple)
            && post.nacked == pre.nacked
    }
    &&& post.state == pre.state
    &&& post.confirm == pre.confirm
    &&& post.next_publish_tag == pre.next_publish_tag
    &&& post.queues == pre.queues
    &&& post.send_flow == pre.send_flow
    &&& post.awaiting == pre.awaiting
    &&& post.content == pre.content
    &&& post.current_return == pre.current_return
    &&& post.error_code == pre.error_code
    &&& post.error_reason == pre.error_reason
}

impl Connection {
    /// Apply an inbound ack or nack to channel `c`.
    fn handle_confirm(&mut self, c: u16, tag: u64, multiple: bool, negative: bool) -> (r: Result<
        (),
        Error,
    >)
        requires
            conn_wf(old(self)),
            (c as int) < old(self).channels@.len(),
        ensures
            conn_wf(final(self)),
            r == Ok::<(), Error>(()),
            chans_same_except(old(self).channels@, final(self).channels@, c as int),
            ack_applied(old(self).channels@[c as int], final(self).channels@[c as int], tag,
                multiple, negative),
            final(self).frame_queue == old(self).frame_queue,
            final(self).requests == old(self).requests,
            conn_core_same(old(self), final(self)),
    {
        let ci = c as usize;
        let mut chan = self.channels.remove(ci);
        let ghost full = chan.unacked@;
        let n = chan.unacked.len();
        let mut kept: Vec<u64> = Vec::new();
        let mut taken: Vec<u64> = Vec::new();
        let mut i: usize = 0;
        proof {
            assert(full.skip(0) =~= full);
            assert(kept@ + confirm_keep(full, tag, multiple)
                =~= confirm_keep(full, tag, multiple));
            assert(taken@ + confirm_take(full, tag, multiple)
                =~= confirm_take(full, tag, multiple));
        }
        while i < n
            invariant
                i <= n,
                n == full.len(),
                chan.unacked@ == full,
                full.no_duplicates(),
                confirm_keep(full, tag, multiple)
                    == kept@ + confirm_keep(full.skip(i as int), tag, multiple),
                confirm_take(full, tag, multiple)
                    == taken@ + confirm_take(full.skip(i as int), tag, multiple),
                kept@.no_duplicates(),
                taken@.no_duplicates(),
                forall|x: u64| #[trigger] kept@.contains(x) ==> full.take(i as int).contains(x)
                    && !covered(x, tag, multiple),
                forall|x: u64| #[trigger] taken@.contains(x) ==> full.take(i as int).contains(x)
                    && covered(x, tag, multiple),
            decreases n - i,
        {
            let t = chan.unacked[i];
            let is_covered = if multiple {
                t <= tag
            } else {
                t == tag
            };
            let ghost kept0 = kept@;
            let ghost taken0 = taken@;
            proof {
                let rem = full.skip(i as int);
                assert(rem[0] == full[i as int]);
                assert(rem.skip(1) =~= full.skip(i as int + 1));
                assert(full.take(i as int + 1) =~= full.take(i as int).push(full[i as int]));
                assert(!kept0.contains(t) && !taken0.contains(t)) by {
                    if kept0.contains(t) || taken0.contains(t) {
                        assert(full.take(i as int).contains(t));
                        let w = choose|w: int|
                            0 <= w < i as int && full.take(i as int)[w] == t;
                        assert(full[w] == full[i as int]);
                        assert(false);
                    }
                };
                assert forall|x: u64| full.take(i as int).contains(x)
                    implies #[trigger] full.take(i as int + 1).contains(x) by {
                    let w = choose|w: int| 0 <= w < i as int && full.take(i as int)[w] == x;
                    assert(full.take(i as int + 1)[w] == x);
                }
                assert(full.take(i as int + 1)[i as int] == t);
                assert(full.take(i as int + 1).contains(t));
            }
            if is_covered {
                taken.push(t);
                proof {
                    assert(confirm_take(full.skip(i as int), tag, multiple)
                        == seq![t] + confirm_take(full.skip(i as int + 1), tag, multiple));
                    assert(taken@ =~= taken0 + seq![t]);
                    assert((taken0 + seq![t])
                        + confirm_take(full.skip(i as int + 1), tag, multiple)
                        =~= taken0 + (seq![t]
                            + confirm_take(full.skip(i as int + 1), tag, multiple)));
                    assert forall|x: u64| #[trigger] taken@.contains(x)
                        implies full.take(i as int + 1).contains(x)
                            && covered(x, tag, multiple) by {
                        if taken0.contains(x) {
                            assert(full.take(i as int).contains(x));
                        } else {
                            assert(x == t);
                        }
                    }
                    assert forall|x: u64| #[trigger] kept@.contains(x)
                        implies full.take(i as int + 1).contains(x)
                            && !covered(x, tag, multiple) by {
                        assert(full.take(i as int).contains(x));
                    }
                }
            } else {
                kept.push(t);
                proof {
                    assert(confirm_keep(full.skip(i as int), tag, multiple)
                        == seq![t] + confirm_keep(full.skip(i as int + 1), tag, multiple));
                    assert(kept@ =~= kept0 + seq![t]);
                    assert((kept0 + seq![t])
                        + confirm_keep(full.skip(i as int + 1), tag, multiple)
                        =~= kept0 + (seq![t]
                            + confirm_keep(full.skip(i as int + 1), tag, multiple)));
                    assert forall|x: u64| #[trigger] kept@.contains(x)
                        implies full.take(i as int + 1).contains(x)
                            && !covered(x, tag, multiple) by {
                        if kept0.contains(x) {
                            assert(full.take(i as int).contains(x));
                        } else {
                            assert(x == t);
                        }
                    }
                    assert forall|x: u64| #[trigger] taken@.contains(x)
                        implies full.take(i as int + 1).contains(x)
                            && covered(x, tag, multiple) by {
                        assert(full.take(i as int).contains(x));
                    }
                }
            }
            i = i + 1;
        }
        proof {
            assert(full.skip(n as int).len() == 0);
            assert(confirm_keep(full.skip(n as int), tag, multiple) == Seq::<u64>::empty());
            assert(confirm_take(full.skip(n as int), tag, multiple) == Seq::<u64>::empty());
            assert(kept@ + Seq::<u64>::empty() =~= kept@);
            assert(taken@ + Seq::<u64>::empty() =~= taken@);
            assert(full.take(n as int) =~= full);
        }
        let ghost keptv = kept@;
        let ghost takenv = taken@;
        chan.unacked = kept;
        if negative {
            chan.nacked.append(&mut taken);
        } else {
            chan.acked.append(&mut taken);
        }
        proof {
            let pre = old(self).channels@[c as int];
            let dest0 = if negative {
                pre.nacked@
            } else {
                pre.acked@
            };
            let dest = if negative {
                chan.nacked@
            } else {
                chan.acked@
            };
            assert(dest == dest0 + takenv);
            assert(chan.unacked@ == keptv);
            assert forall|x: u64| #[trigger] dest.contains(x)
                implies dest0.contains(x) || takenv.contains(x) by {
                let w = choose|w: int| 0 <= w < dest.len() && dest[w] == x;
                if w < dest0.len() as int {
                    assert(dest0[w] == x);
                } else {
                    assert(takenv[w - dest0.len() as int] == x);
                }
            }
            assert forall|q1: int, q2: int|
                0 <= q1 < dest.len() && 0 <= q2 < dest.len() && q1 != q2
                implies dest[q1] != dest[q2] by {
                let pn = dest0.len() as int;
                if q1 < pn && q2 < pn {
                } else if q1 >= pn && q2 >= pn {
                    assert(takenv[q1 - pn] == dest[q1]);
                    assert(takenv[q2 - pn] == dest[q2]);
                } else {
                    let qa = if q1 >= pn { q1 } else { q2 };
                    let qb = if q1 >= pn { q2 } else { q1 };
                    let x = dest[qa];
                    assert(takenv[qa - pn] == x);
                    assert(takenv.contains(x));
                    assert(full.contains(x));
                    assert(pre.unacked@.contains(x));
                    if dest[qb] == x {
                        assert(dest0.contains(x)) by {
                            assert(dest0[qb] == x);
                        };
                        let u = choose|u: int|
                            0 <= u < pre.unacked@.len() && pre.unacked@[u] == x;
                        assert(false);
                    }
                }
            }
            assert(dest.no_duplicates());
            assert forall|q: int| 0 <= q < chan.unacked@.len()
                implies 0 < #[trigger] chan.unacked@[q] < chan.next_publish_tag
                    && !chan.acked@.contains(chan.unacked@[q])
                    && !chan.nacked@.contains(chan.unacked@[q]) by {
                let x = chan.unacked@[q];
                assert(keptv.contains(x)) by {
                    assert(keptv[q] == x);
                };
                assert(full.contains(x));
                let u = choose|u: int| 0 <= u < full.len() && full[u] == x;
                assert(0 < x < pre.next_publish_tag);
                let other = if negative {
                    chan.acked@
                } else {
                    chan.nacked@
                };
                if other.contains(x) {
                    assert(false);
                }
                if dest.contains(x) {
                    if dest0.contains(x) {
                        assert(false);
                    } else {
                        assert(takenv.contains(x));
                        assert(covered(x, tag, multiple));
                        assert(!covered(x, tag, multiple));
                        assert(false);
                    }
                }
            }
            assert forall|q: int| 0 <= q < dest.len()
                implies 0 < #[trigger] dest[q] < chan.next_publish_tag by {
                let x = dest[q];
                if q < dest0.len() as int {
                    assert(dest0[q] == x);
                    assert(dest0.contains(x));
                } else {
                    assert(takenv[q - dest0.len() as int] == x);
                    assert(takenv.contains(x));
                    assert(full.contains(x));
                    let u = choose|u: int| 0 <= u < full.len() && full[u] == x;
                }
            }
            if negative {
                assert forall|q: int| 0 <= q < chan.acked@.len()
                    implies !chan.nacked@.contains(#[trigger] chan.acked@[q]) by {
                    let x = chan.acked@[q];
                    assert(pre.acked@.contains(x)) by {
                        assert(pre.acked@[q] == x);
                    };
                    if chan.nacked@.contains(x) {
                        if dest0.contains(x) {
                            assert(false);
                        } else {
                            assert(takenv.contains(x));
                            assert(full.contains(x));
                            let u = choose|u: int| 0 <= u < full.len() && full[u] == x;
                            assert(false);
                        }
                    }
                }
            } else {
                assert forall|q: int| 0 <= q < chan.acked@.len()
                    implies !chan.nacked@.contains(#[trigger] chan.acked@[q]) by {
                    let x = chan.acked@[q];
                    if chan.nacked@.contains(x) {
                        assert(pre.nacked@.contains(x));
                        if q < dest0.len() as int {
                            assert(dest0[q] == x);
                            assert(pre.acked@.contains(x));
                            assert(false);
                        } else {
                            assert(takenv[q - dest0.len() as int] == x);
                            assert(takenv.contains(x));
                            assert(full.contains(x));
                            let u = choose|u: int| 0 <= u < full.len() && full[u] == x;
                            assert(false);
                        }
                    }
                }
            }
            assert(chan_wf(chan));
        }
        self.channels.insert(ci, chan);
        proof {
            assert(chans_same_except(old(self).channels@, self.channels@, c as int));
        }
        Ok(())
    }
}

// ---------------------------------------------------------------------------
// Content assembly
// ---------------------------------------------------------------------------

/// The delivery being assembled for a consumer, if the channel's scratch
/// points at one.
pub open spec fn consumer_scratch(ch: ChannelState, queue: Seq<u8>, tag: Seq<u8>) -> Option<
    Delivery,
> {
    match queue_index(ch.queues@, queue) {
        None => None,
        Some(qi) => match consumer_index(ch.queues@[qi].consumers@, tag) {
            None => None,
            Some(ci) => ch.queues@[qi].consumers@[ci].current_message,
        },
    }
}

/// The basic-get response being assembled on a queue.
pub open spec fn get_scratch(ch: ChannelState, queue: Seq<u8>) -> Option<BasicGetMessage> {
    match queue_index(ch.queues@, queue) {
        None => None,
        Some(qi) => ch.queues@[qi].current_get_message,
    }
}

/// A request id is among the outstanding entries.
pub open spec fn aw_has_id(aw: Seq<Awaiting>, id: int) -> bool {
    exists|j: int| 0 <= j < aw.len() && aw[j].request_id == id
}

/// Some channel's outstanding requests include id `i`.
pub open spec fn conn_aw_has_id(channels: Seq<ChannelState>, i: int) -> bool {
    exists|k: int| 0 <= k < channels.len() && aw_has_id(channels[k].awaiting@, i)
}

/// Every request an awaiting list refers to is marked failed; all others
/// keep their status.
pub open spec fn requests_failed(
    pre: Seq<RequestStatus>,
    post: Seq<RequestStatus>,
    aw: Seq<Awaiting>,
) -> bool {
    &&& post.len() == pre.len()
    &&& forall|i: int| 0 <= i < pre.len() ==> post[i] == (if aw_has_id(aw, i) {
        RequestStatus::Finished(false)
    } else {
        pre[i]
    })
}

/// Effect of an inbound `channel.close`: the channel is closed with the
/// broker's code and reason, its outstanding requests fail, its scratch is
/// dropped, and `channel.close-ok` is queued.
pub open spec fn peer_close_applied(
    pre: &Connection,
    post: &Connection,
    c: u16,
    code: u16,
    reason: Seq<u8>,
    class_id: u16,
    method_id: u16,
) -> bool {
    &&& chans_same_except(pre.channels@, post.channels@, c as int)
    &&& post.channels@[c as int].state == ChannelStatus::Closed
    &&& post.channels@[c as int].error_code == code
    &&& post.channels@[c as int].error_reason@ == reason
    &&& post.channels@[c as int].error_class_id == class_id
    &&& post.channels@[c as int].error_method_id == method_id
    &&& post.channels@[c as int].awaiting@ == Seq::<Awaiting>::empty()
    &&& post.channels@[c as int].content is None
    &&& post.channels@[c as int].queues == pre.channels@[c as int].queues
    &&& post.channels@[c as int].unacked == pre.channels@[c as int].unacked
    &&& post.channels@[c as int].acked == pre.channels@[c as int].acked
    &&& post.channels@[c as int].nacked == pre.channels@[c as int].nacked
    &&& post.channels@[c as int].confirm == pre.channels@[c as int].confirm
    &&& requests_failed(pre.requests@, post.requests@, pre.channels@[c as int].awaiting@)
    &&& queue_extended(pre.frame_queue@, post.frame_queue@,
        seq![FrameV::Method(c, MethodV::ChannelCloseOk)])
    &&& conn_core_same(pre, post)
}

impl Connection {
    /// Mark every request an awaiting list refers to as failed.
    fn fail_requests(&mut self, aw: &Vec<Awaiting>)
        ensures
            requests_failed(old(self).requests@, final(self).requests@, aw@),
            final(self).channels == old(self).channels,
            final(self).frame_queue == old(self).frame_queue,
            conn_core_same(old(self), final(self)),
    {
        let mut k: usize = 0;
        while k < aw.len()
            invariant
                k <= aw@.len(),
                self.requests@.len() == old(self).requests@.len(),
                forall|i: int| 0 <= i < old(self).requests@.len()
                    ==> self.requests@[i] == (if aw_has_id(aw@.take(k as int), i) {
                        RequestStatus::Finished(false)
                    } else {
                        old(self).requests@[i]
                    }),
                self.channels == old(self).channels,
                self.frame_queue == old(self).frame_queue,
                conn_core_same(old(self), self),
            decreases aw@.len() - k,
        {
            let id = aw[k].request_id as usize;
            let ghost pre_req = self.requests@;
            if id < self.requests.len() {
                self.requests.remove(id);
                self.requests.insert(id, RequestStatus::Finished(false));
                proof {
                    assert(self.requests@ =~= pre_req.update(id as int,
                        RequestStatus::Finished(false)));
                }
            }
            proof {
                let tk1 = aw@.take(k as int + 1);
                let tk = aw@.take(k as int);
                assert(tk1 =~= tk.push(aw@[k as int]));
                assert forall|i: int| 0 <= i < old(self).requests@.len() implies
                    (aw_has_id(tk1, i) <==> (aw_has_id(tk, i)
                        || i == aw@[k as int].request_id as int)) by {
                    if aw_has_id(tk, i) {
                        let j = choose|j: int| 0 <= j < tk.len() && tk[j].request_id == i;
                        assert(tk1[j].request_id == i);
                    }
                    if i == aw@[k as int].request_id as int {
                        assert(tk1[k as int].request_id == i);
                    }
                    if aw_has_id(tk1, i) {
                        let j = choose|j: int| 0 <= j < tk1.len() && tk1[j].request_id == i;
                        if j < k as int {
                            assert(tk[j].request_id == i);
                        }
                    }
                }
            }
            k = k + 1;
        }
        proof {
            assert(aw@.take(aw@.len() as int) =~= aw@);
        }
    }

    /// Handle an inbound `channel.close`.
    fn handle_channel_close(
        &mut self,
        c: u16,
        code: u16,
        reason: Vec<u8>,
        class_id: u16,
        method_id: u16,
    ) -> (r: Result<(), Error>)
        requires
            conn_wf(old(self)),
            (c as int) < old(self).channels@.len(),
        ensures
            conn_wf(final(self)),
            r == Ok::<(), Error>(()),
            peer_close_applied(old(self), final(self), c, code, reason@, class_id, method_id),
    {
        let ci = c as usize;
        let mut chan = self.channels.remove(ci);
        let aw = chan.awaiting;
        chan.awaiting = Vec::new();
        chan.state = ChannelStatus::Closed;
        chan.error_code = code;
        chan.error_reason = reason;
        chan.error_class_id = class_id;
        chan.error_method_id = method_id;
        chan.content = None;
        chan.current_return = None;
        self.channels.insert(ci, chan);
        proof {
            assert(chans_same_except(old(self).channels@, self.channels@, c as int));
        }
        self.fail_requests(&aw);
        self.frame_queue.push(Frame::Method(c, Method::ChannelCloseOk));
        Ok(())
    }
}

/// The first queue holding a consumer with `tag`.
pub open spec fn queue_with_consumer(qs: Seq<Queue>, tag: Seq<u8>) -> Option<int>
    decreases qs.len(),
{
    if qs.len() == 0 {
        None
    } else if consumer_index(qs[0].consumers@, tag) is Some {
        Some(0)
    } else {
        match queue_with_consumer(qs.skip(1), tag) {
            Some(k) => Some(k + 1),
            None => None,
        }
    }
}

proof fn lemma_queue_with_consumer_at(qs: Seq<Queue>, tag: Seq<u8>, k: int)
    requires
        0 <= k < qs.len(),
        consumer_index(qs[k].consumers@, tag) is Some,
        forall|j: int| 0 <= j < k ==> consumer_index(qs[j].consumers@, tag) is None,
    ensures
        queue_with_consumer(qs, tag) == Some(k),
    decreases k,
{
    if k == 0 {
    } else {
        assert(qs.skip(1)[k - 1] == qs[k]);
        assert(forall|j: int| 0 <= j < k - 1 ==> qs.skip(1)[j] == qs[j + 1]);
        lemma_queue_with_consumer_at(qs.skip(1), tag, k - 1);
    }
}

proof fn lemma_queue_with_consumer_some(qs: Seq<Queue>, tag: Seq<u8>)
    ensures
        queue_with_consumer(qs, tag) matches Some(k) ==> 0 <= k < qs.len()
            && consumer_index(qs[k].consumers@, tag) is Some,
    decreases qs.len(),
{
    if qs.len() > 0 {
        lemma_queue_with_consumer_some(qs.skip(1), tag);
    }
}

proof fn lemma_queue_with_consumer_none(qs: Seq<Queue>, tag: Seq<u8>)
    requires
        forall|j: int| 0 <= j < qs.len() ==> consumer_index(qs[j].consumers@, tag) is None,
    ensures
        queue_with_consumer(qs, tag) is None,
    decreases qs.len(),
{
    if qs.len() > 0 {
        assert(forall|j: int| 0 <= j < qs.skip(1).len() ==> qs.skip(1)[j] == qs[j + 1]);
        lemma_queue_with_consumer_none(qs.skip(1), tag);
    }
}

/// Find the first queue holding a consumer with `tag`.
fn find_queue_with_consumer(qs: &Vec<Queue>, tag: &Vec<u8>) -> (r: Option<usize>)
    ensures
        match r {
            Some(k) => k < qs@.len() && queue_with_consumer(qs@, tag@) == Some(k as int),
            None => queue_with_consumer(qs@, tag@) is None,
        },
{
    let mut k: usize = 0;
    while k < qs.len()
        invariant
            k <= qs@.len(),
            forall|j: int| 0 <= j < k ==> consumer_index(qs@[j].consumers@, tag@) is None,
        decreases qs@.len() - k,
    {
        match find_consumer(&qs[k].consumers, tag) {
            Some(_) => {
                proof {
                    lemma_queue_with_consumer_at(qs@, tag@, k as int);
                }
                return Some(k);
            },
            None => {},
        }
        k = k + 1;
    }
    proof {
        lemma_queue_with_consumer_none(qs@, tag@);
    }
    None
}

/// A fatal protocol violation: the connection enters `Error` and nothing
/// else changes.
pub open spec fn error_post(pre: &Connection, post: &Connection, r: Result<(), Error>) -> bool {
    &&& r == Err::<(), Error>(Error::InvalidState)
    &&& post.state == ConnectionState::Error
    &&& post.channels == pre.channels
    &&& post.frame_queue == pre.frame_queue
    &&& post.requests == pre.requests
    &&& post.configuration == pre.configuration
    &&& post.username == pre.username
    &&& post.password == pre.password
    &&& post.vhost == pre.vhost
}

/// Resolution of the oldest outstanding request on channel `c`: its status
/// is recorded and the awaiting entry retired.
pub open spec fn front_resolution(
    pre: &Connection,
    post: &Connection,
    c: u16,
    st: RequestStatus,
) -> bool {
    let aw = pre.channels@[c as int].awaiting@;
    &&& aw.len() > 0
    &&& post.requests@ == (if (aw[0]@.request_id as int) < pre.requests@.len() {
        pre.requests@.update(aw[0]@.request_id as int, st)
    } else {
        pre.requests@
    })
    &&& chans_same_except(pre.channels@, post.channels@, c as int)
    &&& post.channels@[c as int].awaiting@ == aw.skip(1)
    &&& conn_core_same(pre, post)
    &&& post.frame_queue == pre.frame_queue
    &&& post.channels@[c as int].unacked == pre.channels@[c as int].unacked
    &&& post.channels@[c as int].current_return == pre.channels@[c as int].current_return
}

impl Connection {
    /// Put the connection in `Error` after a protocol violation.
    fn protocol_violation(&mut self) -> (r: Result<(), Error>)
        ensures
            error_post(old(self), final(self), r),
    {
        self.state = ConnectionState::Error;
        Err(Error::InvalidState)
    }
}

/// The index of the first binding to `exchange` under `routing_key`.
pub open spec fn binding_index(bs: Seq<Binding>, exchange: Seq<u8>, routing_key: Seq<u8>) -> Option<
    int,
>
    decreases bs.len(),
{
    if bs.len() == 0 {
        None
    } else if bs[0].exchange@ == exchange && bs[0].routing_key@ == routing_key {
        Some(0)
    } else {
        match binding_index(bs.skip(1), exchange, routing_key) {
            Some(k) => Some(k + 1),
            None => None,
        }
    }
}

proof fn lemma_binding_index_at(bs: Seq<Binding>, exchange: Seq<u8>, routing_key: Seq<u8>, k: int)
    requires
        0 <= k < bs.len(),
        bs[k].exchange@ == exchange && bs[k].routing_key@ == routing_key,
        forall|j: int| 0 <= j < k
            ==> !(bs[j].exchange@ == exchange && bs[j].routing_key@ == routing_key),
    ensures
        binding_index(bs, exchange, routing_key) == Some(k),
    decreases k,
{
    if k == 0 {
    } else {
        assert(bs.skip(1)[k - 1] == bs[k]);
        assert(forall|j: int| 0 <= j < k - 1 ==> bs.skip(1)[j] == bs[j + 1]);
        lemma_binding_index_at(bs.skip(1), exchange, routing_key, k - 1);
    }
}

proof fn lemma_binding_index_none(bs: Seq<Binding>, exchange: Seq<u8>, routing_key: Seq<u8>)
    requires
        forall|j: int| 0 <= j < bs.len()
            ==> !(bs[j].exchange@ == exchange && bs[j].routing_key@ == routing_key),
    ensures
        binding_index(bs, exchange, routing_key) is None,
    decreases bs.len(),
{
    if bs.len() > 0 {
        assert(forall|j: int| 0 <= j < bs.skip(1).len() ==> bs.skip(1)[j] == bs[j + 1]);
        lemma_binding_index_none(bs.skip(1), exchange, routing_key);
    }
}

fn find_binding(bs: &Vec<Binding>, exchange: &Vec<u8>, routing_key: &Vec<u8>) -> (r: Option<usize>)
    ensures
        match r {
            Some(k) => k < bs@.len() && binding_index(bs@, exchange@, routing_key@)
                == Some(k as int),
            None => binding_index(bs@, exchange@, routing_key@) is None,
        },
{
    let mut k: usize = 0;
    while k < bs.len()
        invariant
            k <= bs@.len(),
            forall|j: int| 0 <= j < k
                ==> !(bs@[j].exchange@ == exchange@ && bs@[j].routing_key@ == routing_key@),
        decreases bs@.len() - k,
    {
        if bytes_eq(&bs[k].exchange, exchange) && bytes_eq(&bs[k].routing_key, routing_key) {
            proof {
                lemma_binding_index_at(bs@, exchange@, routing_key@, k as int);
            }
            return Some(k);
        }
        k = k + 1;
    }
    proof {
        lemma_binding_index_none(bs@, exchange@, routing_key@);
    }
    None
}

/// Whether an inbound reply fits the oldest outstanding request.
pub open spec fn reply_matches(exp: ExpectedV, mv: MethodV) -> bool {
    match exp {
        ExpectedV::ChannelOpenOk => mv is ChannelOpenOk,
        ExpectedV::ChannelFlowOk => mv is ChannelFlowOk,
        ExpectedV::ChannelCloseOk => mv is ChannelCloseOk,
        ExpectedV::AccessRequestOk => mv is AccessRequestOk,
        ExpectedV::ExchangeDeclareOk => mv is ExchangeDeclareOk,
        ExpectedV::ExchangeDeleteOk => mv is ExchangeDeleteOk,
        ExpectedV::ExchangeBindOk => mv is ExchangeBindOk,
        ExpectedV::ExchangeUnbindOk => mv is ExchangeUnbindOk,
        ExpectedV::QueueDeclareOk { .. } => mv is QueueDeclareOk,
        ExpectedV::QueueBindOk { .. } => mv is QueueBindOk,
        ExpectedV::QueueUnbindOk { .. } => mv is QueueUnbindOk,
        ExpectedV::QueuePurgeOk => mv is QueuePurgeOk,
        ExpectedV::QueueDeleteOk { .. } => mv is QueueDeleteOk,
        ExpectedV::BasicQosOk => mv is BasicQosOk,
        ExpectedV::BasicConsumeOk { .. } => mv is BasicConsumeOk,
        ExpectedV::BasicGetAnswer { .. } => mv is BasicGetOk || mv is BasicGetEmpty,
        ExpectedV::ConfirmSelectOk => mv is ConfirmSelectOk,
    }
}

/// The registry status a matched reply records.
pub open spec fn reply_status(exp: ExpectedV, mv: MethodV) -> RequestStatus {
    match exp {
        ExpectedV::BasicGetAnswer { .. } => RequestStatus::FinishedGet(mv is BasicGetOk),
        _ => RequestStatus::Finished(true),
    }
}

/// Channel fields a reply never touches.
pub open spec fn chan_reply_frame(pre: ChannelState, post: ChannelState) -> bool {
    &&& post.acked == pre.acked
    &&& post.nacked == pre.nacked
    &&& post.unacked == pre.unacked
    &&& post.error_code == pre.error_code
    &&& post.error_reason == pre.error_reason
}

/// The per-kind effect of a matched reply on its channel.
pub open spec fn reply_effect(pre: ChannelState, post: ChannelState, exp: ExpectedV, mv: MethodV) -> bool {
    &&& chan_reply_frame(pre, post)
    &&& match exp {
        ExpectedV::ChannelOpenOk => post.state == ChannelStatus::Open && post.queues == pre.queues
            && post.confirm == pre.confirm && post.send_flow == pre.send_flow
            && post.next_publish_tag == pre.next_publish_tag,
        ExpectedV::ChannelCloseOk => post.state == ChannelStatus::Closed
            && post.queues == pre.queues && post.confirm == pre.confirm
            && post.send_flow == pre.send_flow && post.next_publish_tag == pre.next_publish_tag,
        ExpectedV::ChannelFlowOk => {
            &&& post.state == pre.state
            &&& post.queues == pre.queues
            &&& post.confirm == pre.confirm
            &&& post.next_publish_tag == pre.next_publish_tag
            &&& mv matches MethodV::ChannelFlowOk { active } ==> post.send_flow == active
        },
        ExpectedV::ConfirmSelectOk => {
            &&& post.confirm
            &&& post.queues == pre.queues
            &&& post.state == pre.state
            &&& post.send_flow == pre.send_flow
            &&& if pre.unacked@.len() == 0 && pre.acked@.len() == 0 && pre.nacked@.len() == 0 {
                post.next_publish_tag == 1
            } else {
                post.next_publish_tag == pre.next_publish_tag
            }
        },
        ExpectedV::QueueDeclareOk { passive, durable, exclusive, auto_delete } => {
            &&& post.state == pre.state
            &&& post.confirm == pre.confirm
            &&& post.send_flow == pre.send_flow
            &&& post.next_publish_tag == pre.next_publish_tag
            &&& mv matches MethodV::QueueDeclareOk { queue, message_count, consumer_count }
                ==> match queue_index(pre.queues@, queue) {
                    Some(qi) => {
                        &&& post.queues@.len() == pre.queues@.len()
                        &&& forall|j: int| 0 <= j < pre.queues@.len() && j != qi
                            ==> post.queues@[j] == pre.queues@[j]
                        &&& post.queues@[qi].created
                        &&& post.queues@[qi].message_count == message_count
                        &&& post.queues@[qi].consumer_count == consumer_count
                        &&& post.queues@[qi].name == pre.queues@[qi].name
                        &&& post.queues@[qi].consumers == pre.queues@[qi].consumers
                        &&& post.queues@[qi].bindings == pre.queues@[qi].bindings
                        &&& post.queues@[qi].get_messages == pre.queues@[qi].get_messages
                    },
                    None => {
                        &&& post.queues@.len() == pre.queues@.len() + 1
                        &&& forall|j: int| 0 <= j < pre.queues@.len()
                            ==> post.queues@[j] == pre.queues@[j]
                        &&& post.queues@[pre.queues@.len() as int].name@ == queue
                        &&& post.queues@[pre.queues@.len() as int].created
                        &&& post.queues@[pre.queues@.len() as int].durable == durable
                        &&& post.queues@[pre.queues@.len() as int].passive == passive
                        &&& post.queues@[pre.queues@.len() as int].exclusive == exclusive
                        &&& post.queues@[pre.queues@.len() as int].auto_delete == auto_delete
                        &&& post.queues@[pre.queues@.len() as int].message_count == message_count
                        &&& post.queues@[pre.queues@.len() as int].consumer_count
                            == consumer_count
                        &&& post.queues@[pre.queues@.len() as int].consumers@
                            == Seq::<Consumer>::empty()
                        &&& post.queues@[pre.queues@.len() as int].bindings@
                            == Seq::<Binding>::empty()
                        &&& post.queues@[pre.queues@.len() as int].get_messages@
                            == Seq::<BasicGetMessage>::empty()
                    },
                }
        },
        ExpectedV::QueueBindOk { queue, exchange, routing_key, nowait } => {
            &&& post.state == pre.state
            &&& post.confirm == pre.confirm
            &&& post.send_flow == pre.send_flow
            &&& post.next_publish_tag == pre.next_publish_tag
            &&& match queue_index(pre.queues@, queue) {
                Some(qi) => {
                    &&& post.queues@.len() == pre.queues@.len()
                    &&& forall|j: int| 0 <= j < pre.queues@.len() && j != qi
                        ==> post.queues@[j] == pre.queues@[j]
                    &&& post.queues@[qi].bindings@.len()
                        == pre.queues@[qi].bindings@.len() + 1
                    &&& forall|j: int| 0 <= j < pre.queues@[qi].bindings@.len()
                        ==> post.queues@[qi].bindings@[j] == pre.queues@[qi].bindings@[j]
                    &&& post.queues@[qi].bindings@.last().exchange@ == exchange
                    &&& post.queues@[qi].bindings@.last().routing_key@ == routing_key
                    &&& post.queues@[qi].bindings@.last().no_wait == nowait
                    &&& post.queues@[qi].bindings@.last().active
                    &&& post.queues@[qi].name == pre.queues@[qi].name
                    &&& post.queues@[qi].consumers == pre.queues@[qi].consumers
                    &&& post.queues@[qi].get_messages == pre.queues@[qi].get_messages
                },
                None => post.queues == pre.queues,
            }
        },
        ExpectedV::QueueUnbindOk { queue, exchange, routing_key } => {
            &&& post.state == pre.state
            &&& post.confirm == pre.confirm
            &&& post.send_flow == pre.send_flow
            &&& post.next_publish_tag == pre.next_publish_tag
            &&& match queue_index(pre.queues@, queue) {
                Some(qi) => match binding_index(pre.queues@[qi].bindings@, exchange, routing_key) {
                    Some(bi) => {
                        &&& post.queues@.len() == pre.queues@.len()
                        &&& forall|j: int| 0 <= j < pre.queues@.len() && j != qi
                            ==> post.queues@[j] == pre.queues@[j]
                        &&& post.queues@[qi].bindings@
                            == pre.queues@[qi].bindings@.remove(bi)
                        &&& post.queues@[qi].name == pre.queues@[qi].name
                        &&& post.queues@[qi].consumers == pre.queues@[qi].consumers
                        &&& post.queues@[qi].get_messages == pre.queues@[qi].get_messages
                    },
                    None => post.queues == pre.queues,
                },
                None => post.queues == pre.queues,
            }
        },
        ExpectedV::QueueDeleteOk { queue } => {
            &&& post.state == pre.state
            &&& post.confirm == pre.confirm
            &&& post.send_flow == pre.send_flow
            &&& post.next_publish_tag == pre.next_publish_tag
            &&& match queue_index(pre.queues@, queue) {
                Some(qi) => post.queues@ == pre.queues@.remove(qi),
                None => post.queues == pre.queues,
            }
        },
        ExpectedV::BasicConsumeOk { queue, no_local, no_ack, exclusive, nowait } => {
            &&& post.state == pre.state
            &&& post.confirm == pre.confirm
            &&& post.send_flow == pre.send_flow
            &&& post.next_publish_tag == pre.next_publish_tag
            &&& mv matches MethodV::BasicConsumeOk { consumer_tag }
                ==> match queue_index(pre.queues@, queue) {
                    Some(qi) => {
                        &&& post.queues@.len() == pre.queues@.len()
                        &&& forall|j: int| 0 <= j < pre.queues@.len() && j != qi
                            ==> post.queues@[j] == pre.queues@[j]
                        &&& post.queues@[qi].consumers@.len()
                            == pre.queues@[qi].consumers@.len() + 1
                        &&& forall|j: int| 0 <= j < pre.queues@[qi].consumers@.len()
                            ==> post.queues@[qi].consumers@[j]
                                == pre.queues@[qi].consumers@[j]
                        &&& post.queues@[qi].consumers@.last().tag@ == consumer_tag
                        &&& post.queues@[qi].consumers@.last().no_local == no_local
                        &&& post.queues@[qi].consumers@.last().no_ack == no_ack
                        &&& post.queues@[qi].consumers@.last().exclusive == exclusive
                        &&& post.queues@[qi].consumers@.last().nowait == nowait
                        &&& post.queues@[qi].consumers@.last().messages@
                            == Seq::<Delivery>::empty()
                        &&& post.queues@[qi].consumers@.last().current_message is None
                        &&& post.queues@[qi].name == pre.queues@[qi].name
                        &&& post.queues@[qi].bindings == pre.queues@[qi].bindings
                        &&& post.queues@[qi].get_messages == pre.queues@[qi].get_messages
                    },
                    None => post.queues == pre.queues,
                }
        },
        ExpectedV::BasicGetAnswer { queue } => {
            &&& post.state == pre.state
            &&& post.confirm == pre.confirm
            &&& post.send_flow == pre.send_flow
            &&& post.next_publish_tag == pre.next_publish_tag
            &&& match mv {
                MethodV::BasicGetOk {
                    delivery_tag, redelivered, exchange, routing_key, message_count,
                } => match queue_index(pre.queues@, queue) {
                    Some(qi) => {
                        &&& post.queues@.len() == pre.queues@.len()
                        &&& forall|j: int| 0 <= j < pre.queues@.len() && j != qi
                            ==> post.queues@[j] == pre.queues@[j]
                        &&& post.queues@[qi].current_get_message matches Some(m)
                        &&& post.queues@[qi].current_get_message matches Some(m) ==> {
                            &&& m.delivery.delivery_tag == delivery_tag
                            &&& m.delivery.exchange@ == exchange
                            &&& m.delivery.routing_key@ == routing_key
                            &&& m.delivery.redelivered == redelivered
                            &&& m.delivery.data@ == Seq::<u8>::empty()
                            &&& m.message_count == message_count
                        }
                        &&& post.queues@[qi].get_messages == pre.queues@[qi].get_messages
                        &&& post.queues@[qi].name == pre.queues@[qi].name
                        &&& post.queues@[qi].consumers == pre.queues@[qi].consumers
                    },
                    None => post.queues == pre.queues,
                },
                _ => post.queues == pre.queues,
            }
        },
        _ => post.state == pre.state && post.queues == pre.queues && post.confirm == pre.confirm
            && post.send_flow == pre.send_flow && post.next_publish_tag == pre.next_publish_tag,
    }
}

/// Whether a matched `basic.get-ok` starts content assembly on the channel.
pub open spec fn reply_content(pre: ChannelState, post: ChannelState, exp: ExpectedV, mv: MethodV) -> bool {
    match (exp, mv) {
        (ExpectedV::BasicGetAnswer { queue }, MethodV::BasicGetOk { .. }) => {
            &&& post.content matches Some(sc)
            &&& post.content matches Some(sc) ==> sc.awaiting_header && sc.target@
                == (ContentTargetV::GetTarget { queue })
        },
        _ => post.content == pre.content,
    }
}

impl Connection {
    fn reply_matches_exec(expected: &Expected, m: &Method) -> (r: bool)
        ensures
            r == reply_matches(expected@, m@),
    {
        match expected {
            Expected::ChannelOpenOk => matches!(m, Method::ChannelOpenOk { .. }),
            Expected::ChannelFlowOk => matches!(m, Method::ChannelFlowOk { .. }),
            Expected::ChannelCloseOk => matches!(m, Method::ChannelCloseOk),
            Expected::AccessRequestOk => matches!(m, Method::AccessRequestOk { .. }),
            Expected::ExchangeDeclareOk => matches!(m, Method::ExchangeDeclareOk),
            Expected::ExchangeDeleteOk => matches!(m, Method::ExchangeDeleteOk),
            Expected::ExchangeBindOk => matches!(m, Method::ExchangeBindOk),
            Expected::ExchangeUnbindOk => matches!(m, Method::ExchangeUnbindOk),
            Expected::QueueDeclareOk { .. } => matches!(m, Method::QueueDeclareOk { .. }),
            Expected::QueueBindOk { .. } => matches!(m, Method::QueueBindOk),
            Expected::QueueUnbindOk { .. } => matches!(m, Method::QueueUnbindOk),
            Expected::QueuePurgeOk => matches!(m, Method::QueuePurgeOk { .. }),
            Expected::QueueDeleteOk { .. } => matches!(m, Method::QueueDeleteOk { .. }),
            Expected::BasicQosOk => matches!(m, Method::BasicQosOk),
            Expected::BasicConsumeOk { .. } => matches!(m, Method::BasicConsumeOk { .. }),
            Expected::BasicGetAnswer { .. } => matches!(m, Method::BasicGetOk { .. })
                || matches!(m, Method::BasicGetEmpty { .. }),
            Expected::ConfirmSelectOk => matches!(m, Method::ConfirmSelectOk),
        }
    }

    /// Apply the per-kind effect of a matched reply to the channel.
    #[verifier::spinoff_prover]
    #[verifier::rlimit(100)]
    fn apply_reply_effect(chan: &mut ChannelState, exp: Expected, m: Method)
        requires
            chan_wf(*old(chan)),
            reply_matches(exp@, m@),
        ensures
            chan_wf(*final(chan)),
            reply_effect(*old(chan), *final(chan), exp@, m@),
            reply_content(*old(chan), *final(chan), exp@, m@),
            final(chan).awaiting == old(chan).awaiting,
            final(chan).current_return == old(chan).current_return,
    {
        let ghost pre = *chan;
        match (exp, m) {
            (Expected::ChannelOpenOk, Method::ChannelOpenOk { .. }) => {
                chan.state = ChannelStatus::Open;
            },
            (Expected::ChannelCloseOk, Method::ChannelCloseOk) => {
                chan.state = ChannelStatus::Closed;
            },
            (Expected::ChannelFlowOk, Method::ChannelFlowOk { active }) => {
                chan.send_flow = active;
            },
            (Expected::ConfirmSelectOk, Method::ConfirmSelectOk) => {
                chan.confirm = true;
                if chan.unacked.len() == 0 && chan.acked.len() == 0 && chan.nacked.len() == 0 {
                    chan.next_publish_tag = 1;
                }
            },
            (
                Expected::QueueDeclareOk { passive, durable, exclusive, auto_delete },
                Method::QueueDeclareOk { queue, message_count, consumer_count },
            ) => {
                match find_queue(&chan.queues, &queue) {
                    Some(qi) => {
                        let mut q = chan.queues.remove(qi);
                        q.created = true;
                        q.message_count = message_count;
                        q.consumer_count = consumer_count;
                        chan.queues.insert(qi, q);
                        proof {
                            assert(forall|j: int|
                                0 <= j < pre.queues@.len() && j != qi as int
                                    ==> chan.queues@[j] == pre.queues@[j]);
                        }
                    },
                    None => {
                        let mut q = Queue::new(queue, passive, durable, exclusive, auto_delete);
                        q.created = true;
                        q.message_count = message_count;
                        q.consumer_count = consumer_count;
                        chan.queues.push(q);
                    },
                }
            },
            (Expected::QueueBindOk { queue, exchange, routing_key, nowait }, Method::QueueBindOk) => {
                match find_queue(&chan.queues, &queue) {
                    Some(qi) => {
                        let mut q = chan.queues.remove(qi);
                        let mut b = Binding::new(exchange, routing_key, nowait);
                        b.active = true;
                        q.bindings.push(b);
                        chan.queues.insert(qi, q);
                        proof {
                            assert(forall|j: int|
                                0 <= j < pre.queues@.len() && j != qi as int
                                    ==> chan.queues@[j] == pre.queues@[j]);
                        }
                    },
                    None => {},
                }
            },
            (Expected::QueueUnbindOk { queue, exchange, routing_key }, Method::QueueUnbindOk) => {
                match find_queue(&chan.queues, &queue) {
                    Some(qi) => {
                        match find_binding(&chan.queues[qi].bindings, &exchange, &routing_key) {
                            Some(bi) => {
                                let mut q = chan.queues.remove(qi);
                                q.bindings.remove(bi);
                                chan.queues.insert(qi, q);
                                proof {
                                    assert(forall|j: int|
                                        0 <= j < pre.queues@.len() && j != qi as int
                                            ==> chan.queues@[j] == pre.queues@[j]);
                                }
                            },
                            None => {},
                        }
                    },
                    None => {},
                }
            },
            (Expected::QueueDeleteOk { queue }, Method::QueueDeleteOk { .. }) => {
                match find_queue(&chan.queues, &queue) {
                    Some(qi) => {
                        chan.queues.remove(qi);
                    },
                    None => {},
                }
            },
            (
                Expected::BasicConsumeOk { queue, no_local, no_ack, exclusive, nowait },
                Method::BasicConsumeOk { consumer_tag },
            ) => {
                match find_queue(&chan.queues, &queue) {
                    Some(qi) => {
                        let mut q = chan.queues.remove(qi);
                        q.consumers.push(Consumer {
                            tag: consumer_tag,
                            no_local,
                            no_ack,
                            exclusive,
                            nowait,
                            messages: Vec::new(),
                            current_message: None,
                        });
                        chan.queues.insert(qi, q);
                        proof {
                            assert(forall|j: int|
                                0 <= j < pre.queues@.len() && j != qi as int
                                    ==> chan.queues@[j] == pre.queues@[j]);
                        }
                    },
                    None => {},
                }
            },
            (
                Expected::BasicGetAnswer { queue },
                Method::BasicGetOk {
                    delivery_tag, redelivered, exchange, routing_key, message_count,
                },
            ) => {
                let qname = crate::wire::copy_range(&queue, 0, queue.len());
                proof {
                    assert(qname@ =~= queue@);
                }
                match find_queue(&chan.queues, &queue) {
                    Some(qi) => {
                        let mut q = chan.queues.remove(qi);
                        q.current_get_message = Some(BasicGetMessage::new(
                            delivery_tag,
                            exchange,
                            routing_key,
                            redelivered,
                            message_count,
                        ));
                        chan.queues.insert(qi, q);
                        proof {
                            assert(forall|j: int|
                                0 <= j < pre.queues@.len() && j != qi as int
                                    ==> chan.queues@[j] == pre.queues@[j]);
                        }
                    },
                    None => {},
                }
                chan.content = Some(ContentScratch {
                    target: ContentTarget::GetTarget { queue: qname },
                    awaiting_header: true,
                    remaining: 0,
                });
            },
            _ => {},
        }
    }

    /// Resolve the oldest outstanding request on channel `c` with an inbound
    /// reply and apply the reply's effect.
    #[verifier::spinoff_prover]
    #[verifier::rlimit(100)]
    fn handle_reply(&mut self, c: u16, m: Method) -> (r: Result<(), Error>)
        requires
            conn_wf(old(self)),
            (c as int) < old(self).channels@.len(),
        ensures
            conn_wf(final(self)),
            ({
                let aw = old(self).channels@[c as int].awaiting@;
                if aw.len() > 0 && reply_matches(aw[0]@.expected, m@) {
                    &&& r == Ok::<(), Error>(())
                    &&& front_resolution(old(self), final(self), c,
                        reply_status(aw[0]@.expected, m@))
                    &&& reply_effect(old(self).channels@[c as int],
                        final(self).channels@[c as int], aw[0]@.expected, m@)
                    &&& reply_content(old(self).channels@[c as int],
                        final(self).channels@[c as int], aw[0]@.expected, m@)
                } else {
                    error_post(old(self), final(self), r)
                }
            }),
    {
        let ci = c as usize;
        if self.channels[ci].awaiting.len() == 0 {
            return self.protocol_violation();
        }
        if !Self::reply_matches_exec(&self.channels[ci].awaiting[0].expected, &m) {
            return self.protocol_violation();
        }
        let mut chan = self.channels.remove(ci);
        let aw0 = chan.awaiting.remove(0);
        proof {
            assert(chan.awaiting@ =~= old(self).channels@[c as int].awaiting@.skip(1));
        }
        let st = match (&aw0.expected, &m) {
            (Expected::BasicGetAnswer { .. }, Method::BasicGetOk { .. }) =>
                RequestStatus::FinishedGet(true),
            (Expected::BasicGetAnswer { .. }, _) => RequestStatus::FinishedGet(false),
            _ => RequestStatus::Finished(true),
        };
        let id = aw0.request_id as usize;
        let ghost pre_req = self.requests@;
        if id < self.requests.len() {
            self.requests.remove(id);
            self.requests.insert(id, st);
            proof {
                assert(self.requests@ =~= pre_req.update(id as int, st));
            }
        }
        Self::apply_reply_effect(&mut chan, aw0.expected, m);
        self.channels.insert(ci, chan);
        proof {
            assert(chans_same_except(old(self).channels@, self.channels@, c as int));
        }
        Ok(())
    }
}


proof fn lemma_queue_index_stable(qs1: Seq<Queue>, qs2: Seq<Queue>, name: Seq<u8>)
    requires
        qs2.len() == qs1.len(),
        forall|k: int| 0 <= k < qs1.len() ==> #[trigger] qs2[k].name@ == qs1[k].name@,
    ensures
        queue_index(qs2, name) == queue_index(qs1, name),
    decreases qs1.len(),
{
    if qs1.len() > 0 {
        assert(forall|k: int| 0 <= k < qs1.skip(1).len()
            ==> #[trigger] qs2.skip(1)[k].name@ == qs1.skip(1)[k].name@) by {
            assert(forall|k: int| 0 <= k < qs1.skip(1).len()
                ==> qs1.skip(1)[k] == qs1[k + 1] && qs2.skip(1)[k] == qs2[k + 1]);
        };
        lemma_queue_index_stable(qs1.skip(1), qs2.skip(1), name);
    }
}

proof fn lemma_consumer_index_stable(cs1: Seq<Consumer>, cs2: Seq<Consumer>, tag: Seq<u8>)
    requires
        cs2.len() == cs1.len(),
        forall|k: int| 0 <= k < cs1.len() ==> #[trigger] cs2[k].tag@ == cs1[k].tag@,
    ensures
        consumer_index(cs2, tag) == consumer_index(cs1, tag),
    decreases cs1.len(),
{
    if cs1.len() > 0 {
        assert(forall|k: int| 0 <= k < cs1.skip(1).len()
            ==> #[trigger] cs2.skip(1)[k].tag@ == cs1.skip(1)[k].tag@) by {
            assert(forall|k: int| 0 <= k < cs1.skip(1).len()
                ==> cs1.skip(1)[k] == cs1[k + 1] && cs2.skip(1)[k] == cs2[k + 1]);
        };
        lemma_consumer_index_stable(cs1.skip(1), cs2.skip(1), tag);
    }
}

/// Queue fields content assembly never touches: everything but the two
/// scratch slots and the FIFOs.
pub open spec fn queue_frame_same(pre: Queue, post: Queue) -> bool {
    &&& post.name == pre.name
    &&& post.passive == pre.passive
    &&& post.durable == pre.durable
    &&& post.exclusive == pre.exclusive
    &&& post.auto_delete == pre.auto_delete
    &&& post.message_count == pre.message_count
    &&& post.consumer_count == pre.consumer_count
    &&& post.created == pre.created
    &&& post.bindings == pre.bindings
}

/// Consumer fields content assembly never touches: everything but the FIFO
/// and the scratch slot.
pub open spec fn consumer_frame_same(pre: Consumer, post: Consumer) -> bool {
    &&& post.tag == pre.tag
    &&& post.no_local == pre.no_local
    &&& post.no_ack == pre.no_ack
    &&& post.exclusive == pre.exclusive
    &&& post.nowait == pre.nowait
}

/// Channel fields content assembly never touches.
pub open spec fn content_frame_same(pre: ChannelState, post: ChannelState) -> bool {
    &&& post.state == pre.state
    &&& post.confirm == pre.confirm
    &&& post.next_publish_tag == pre.next_publish_tag
    &&& post.unacked == pre.unacked
    &&& post.acked == pre.acked
    &&& post.nacked == pre.nacked
    &&& post.send_flow == pre.send_flow
    &&& post.awaiting == pre.awaiting
    &&& post.error_code == pre.error_code
    &&& post.error_reason == pre.error_reason
}

/// The delivery sitting in the scratch slot a content target points at.
pub open spec fn scratch_delivery_of(ch: ChannelState, t: ContentTargetV) -> Option<Delivery> {
    match t {
        ContentTargetV::ConsumerTarget { queue, tag } => consumer_scratch(ch, queue, tag),
        ContentTargetV::GetTarget { queue } => match get_scratch(ch, queue) {
            Some(m) => Some(m.delivery),
            None => None,
        },
        ContentTargetV::ReturnTarget => ch.current_return,
    }
}

/// The message was completed: the scratch delivery, extended with `frag` and
/// carrying `props` when one is given, moved to its FIFO, and the scratch
/// and assembly state were cleared.
pub open spec fn content_completed(
    pre: ChannelState,
    post: ChannelState,
    t: ContentTargetV,
    props: Option<PropsV>,
    frag: Seq<u8>,
) -> bool {
    &&& content_frame_same(pre, post)
    &&& post.content is None
    &&& scratch_delivery_of(pre, t) matches Some(d0)
    &&& match t {
        ContentTargetV::ConsumerTarget { queue, tag } => {
            match (queue_index(pre.queues@, queue), scratch_delivery_of(pre, t)) {
                (Some(qi), Some(d0)) => {
                    let ci = consumer_index(pre.queues@[qi].consumers@, tag);
                    &&& ci matches Some(cii)
                    &&& ci matches Some(cii) ==> {
                        &&& post.queues@.len() == pre.queues@.len()
                        &&& forall|j: int| 0 <= j < pre.queues@.len() && j != qi
                            ==> post.queues@[j] == pre.queues@[j]
                        &&& queue_frame_same(pre.queues@[qi], post.queues@[qi])
                        &&& post.queues@[qi].get_messages == pre.queues@[qi].get_messages
                        &&& post.queues@[qi].current_get_message
                            == pre.queues@[qi].current_get_message
                        &&& post.queues@[qi].consumers@.len()
                            == pre.queues@[qi].consumers@.len()
                        &&& forall|j: int| 0 <= j < pre.queues@[qi].consumers@.len() && j != cii
                            ==> post.queues@[qi].consumers@[j] == pre.queues@[qi].consumers@[j]
                        &&& consumer_frame_same(pre.queues@[qi].consumers@[cii],
                            post.queues@[qi].consumers@[cii])
                        &&& post.queues@[qi].consumers@[cii].current_message is None
                        &&& post.queues@[qi].consumers@[cii].messages@.len()
                            == pre.queues@[qi].consumers@[cii].messages@.len() + 1
                        &&& forall|j: int|
                            0 <= j < pre.queues@[qi].consumers@[cii].messages@.len()
                                ==> post.queues@[qi].consumers@[cii].messages@[j]
                                    == pre.queues@[qi].consumers@[cii].messages@[j]
                        &&& post.queues@[qi].consumers@[cii].messages@.last().data@
                            == d0.data@ + frag
                        &&& post.queues@[qi].consumers@[cii].messages@.last().delivery_tag
                            == d0.delivery_tag
                        &&& post.queues@[qi].consumers@[cii].messages@.last().exchange
                            == d0.exchange
                        &&& post.queues@[qi].consumers@[cii].messages@.last().routing_key
                            == d0.routing_key
                        &&& post.queues@[qi].consumers@[cii].messages@.last().redelivered
                            == d0.redelivered
                        &&& post.queues@[qi].consumers@[cii].messages@.last().properties@
                            == (match props {
                            Some(p) => p,
                            None => d0.properties@,
                        })
                    }
                },
                _ => false,
            }
        },
        ContentTargetV::GetTarget { queue } => {
            match (queue_index(pre.queues@, queue), get_scratch(pre, queue)) {
                (Some(qi), Some(m0)) => {
                    &&& post.queues@.len() == pre.queues@.len()
                    &&& forall|j: int| 0 <= j < pre.queues@.len() && j != qi
                        ==> post.queues@[j] == pre.queues@[j]
                    &&& queue_frame_same(pre.queues@[qi], post.queues@[qi])
                    &&& post.queues@[qi].current_get_message is None
                    &&& post.queues@[qi].get_messages@.len()
                        == pre.queues@[qi].get_messages@.len() + 1
                    &&& forall|j: int| 0 <= j < pre.queues@[qi].get_messages@.len()
                        ==> post.queues@[qi].get_messages@[j]
                            == pre.queues@[qi].get_messages@[j]
                    &&& post.queues@[qi].get_messages@.last().delivery.data@
                        == m0.delivery.data@ + frag
                    &&& post.queues@[qi].get_messages@.last().delivery.delivery_tag
                        == m0.delivery.delivery_tag
                    &&& post.queues@[qi].get_messages@.last().message_count == m0.message_count
                    &&& post.queues@[qi].get_messages@.last().delivery.properties@
                        == (match props {
                        Some(p) => p,
                        None => m0.delivery.properties@,
                    })
                    &&& post.queues@[qi].consumers == pre.queues@[qi].consumers
                },
                _ => false,
            }
        },
        ContentTargetV::ReturnTarget => {
            &&& post.current_return is None
            &&& post.queues == pre.queues
        },
    }
}

/// The scratch delivery advanced without completing: `frag` appended and,
/// when given, the header's properties attached.
pub open spec fn content_advanced(
    pre: ChannelState,
    post: ChannelState,
    t: ContentTargetV,
    props: Option<PropsV>,
    frag: Seq<u8>,
    remaining: u64,
) -> bool {
    &&& content_frame_same(pre, post)
    &&& post.content matches Some(sc2)
    &&& post.content matches Some(sc2) ==> sc2.target@ == t && !sc2.awaiting_header
        && sc2.remaining == remaining
    &&& scratch_delivery_of(pre, t) matches Some(d0)
    &&& scratch_delivery_of(post, t) matches Some(d2)
    &&& match (scratch_delivery_of(pre, t), scratch_delivery_of(post, t)) {
        (Some(d0), Some(d2)) => {
            &&& d2.data@ == d0.data@ + frag
            &&& d2.delivery_tag == d0.delivery_tag
            &&& d2.exchange == d0.exchange
            &&& d2.routing_key == d0.routing_key
            &&& d2.redelivered == d0.redelivered
            &&& d2.properties@ == (match props {
                Some(p) => p,
                None => d0.properties@,
            })
        },
        _ => false,
    }
    &&& match t {
        ContentTargetV::ConsumerTarget { queue, tag } => {
            match queue_index(pre.queues@, queue) {
                Some(qi) => {
                    &&& post.queues@.len() == pre.queues@.len()
                    &&& forall|j: int| 0 <= j < pre.queues@.len() && j != qi
                        ==> post.queues@[j] == pre.queues@[j]
                    &&& queue_frame_same(pre.queues@[qi], post.queues@[qi])
                    &&& post.queues@[qi].get_messages == pre.queues@[qi].get_messages
                    &&& post.queues@[qi].current_get_message
                        == pre.queues@[qi].current_get_message
                    &&& match consumer_index(pre.queues@[qi].consumers@, tag) {
                        Some(cii) => {
                            &&& post.queues@[qi].consumers@.len()
                                == pre.queues@[qi].consumers@.len()
                            &&& forall|j: int|
                                0 <= j < pre.queues@[qi].consumers@.len() && j != cii
                                    ==> post.queues@[qi].consumers@[j]
                                        == pre.queues@[qi].consumers@[j]
                            &&& consumer_frame_same(pre.queues@[qi].consumers@[cii],
                                post.queues@[qi].consumers@[cii])
                            &&& post.queues@[qi].consumers@[cii].messages
                                == pre.queues@[qi].consumers@[cii].messages
                        },
                        None => false,
                    }
                },
                None => false,
            }
        },
        ContentTargetV::GetTarget { queue } => {
            match queue_index(pre.queues@, queue) {
                Some(qi) => {
                    &&& post.queues@.len() == pre.queues@.len()
                    &&& forall|j: int| 0 <= j < pre.queues@.len() && j != qi
                        ==> post.queues@[j] == pre.queues@[j]
                    &&& queue_frame_same(pre.queues@[qi], post.queues@[qi])
                    &&& post.queues@[qi].consumers == pre.queues@[qi].consumers
                    &&& post.queues@[qi].get_messages == pre.queues@[qi].get_messages
                    &&& match (get_scratch(pre, queue), get_scratch(post, queue)) {
                        (Some(m0), Some(m2)) => m2.message_count == m0.message_count,
                        _ => false,
                    }
                },
                None => false,
            }
        },
        ContentTargetV::ReturnTarget => post.queues == pre.queues,
    }
}

/// A `basic.deliver` took hold: the targeted consumer's scratch slot holds a
/// fresh delivery and the channel awaits the content header.
pub open spec fn deliver_started(
    pre: ChannelState,
    post: ChannelState,
    tagv: Seq<u8>,
    dtag: u64,
    redelivered: bool,
    exchange: Seq<u8>,
    rk: Seq<u8>,
) -> bool {
    &&& content_frame_same(pre, post)
    &&& post.current_return == pre.current_return
    &&& match queue_with_consumer(pre.queues@, tagv) {
        Some(qi) => match consumer_index(pre.queues@[qi].consumers@, tagv) {
            Some(cii) => {
                &&& post.queues@.len() == pre.queues@.len()
                &&& forall|j: int| 0 <= j < pre.queues@.len() && j != qi
                    ==> post.queues@[j] == pre.queues@[j]
                &&& queue_frame_same(pre.queues@[qi], post.queues@[qi])
                &&& post.queues@[qi].consumers@.len() == pre.queues@[qi].consumers@.len()
                &&& forall|j: int| 0 <= j < pre.queues@[qi].consumers@.len() && j != cii
                    ==> post.queues@[qi].consumers@[j] == pre.queues@[qi].consumers@[j]
                &&& consumer_frame_same(pre.queues@[qi].consumers@[cii],
                    post.queues@[qi].consumers@[cii])
                &&& post.queues@[qi].consumers@[cii].messages
                    == pre.queues@[qi].consumers@[cii].messages
                &&& post.queues@[qi].consumers@[cii].current_message matches Some(d)
                &&& post.queues@[qi].consumers@[cii].current_message matches Some(d) ==> {
                    &&& d.delivery_tag == dtag
                    &&& d.exchange@ == exchange
                    &&& d.routing_key@ == rk
                    &&& d.redelivered == redelivered
                    &&& d.data@ == Seq::<u8>::empty()
                }
                &&& post.queues@[qi].get_messages == pre.queues@[qi].get_messages
                &&& post.queues@[qi].current_get_message
                    == pre.queues@[qi].current_get_message
                &&& post.content matches Some(sc)
                &&& post.content matches Some(sc) ==> sc.awaiting_header && sc.target@
                    == (ContentTargetV::ConsumerTarget {
                    queue: pre.queues@[qi].name@,
                    tag: tagv,
                })
            },
            None => false,
        },
        None => false,
    }
}

/// A `basic.return` took hold: the channel's return scratch holds a fresh
/// delivery and the channel awaits the content header.
pub open spec fn return_started(
    pre: ChannelState,
    post: ChannelState,
    exchange: Seq<u8>,
    rk: Seq<u8>,
) -> bool {
    &&& content_frame_same(pre, post)
    &&& post.queues == pre.queues
    &&& post.current_return matches Some(d)
    &&& post.current_return matches Some(d) ==> d.exchange@ == exchange && d.routing_key@ == rk
        && d.data@ == Seq::<u8>::empty()
    &&& post.content matches Some(sc)
    &&& post.content matches Some(sc) ==> sc.awaiting_header && sc.target@
        == ContentTargetV::ReturnTarget
}

/// A content header may be applied: assembly awaits one and the scratch slot
/// its target points at is filled.
pub open spec fn header_ok_pre(ch: ChannelState) -> bool {
    &&& ch.content matches Some(sc)
    &&& ch.content matches Some(sc) ==> sc.awaiting_header
        && scratch_delivery_of(ch, sc.target@) is Some
}

/// A body fragment of `n` bytes may be applied.
pub open spec fn body_ok_pre(ch: ChannelState, n: nat) -> bool {
    &&& ch.content matches Some(sc)
    &&& ch.content matches Some(sc) ==> !sc.awaiting_header && n <= sc.remaining
        && scratch_delivery_of(ch, sc.target@) is Some
}

impl Connection {
    /// Whether the channel can accept a header (or, with `body`, a fragment
    /// of `n` bytes).
    fn content_check(chan: &ChannelState, want_body: bool, n: u64) -> (r: bool)
        ensures
            !want_body ==> r == header_ok_pre(*chan),
            want_body ==> r == body_ok_pre(*chan, n as nat),
    {
        match &chan.content {
            None => false,
            Some(sc) => {
                if !want_body && !sc.awaiting_header {
                    return false;
                }
                if want_body && (sc.awaiting_header || n > sc.remaining) {
                    return false;
                }
                match &sc.target {
                    ContentTarget::ConsumerTarget { queue, tag } => {
                        match find_queue(&chan.queues, queue) {
                            None => false,
                            Some(qi) => match find_consumer(&chan.queues[qi].consumers, tag) {
                                None => false,
                                Some(ci) => chan.queues[qi].consumers[ci].current_message.is_some(),
                            },
                        }
                    },
                    ContentTarget::GetTarget { queue } => match find_queue(&chan.queues, queue) {
                        None => false,
                        Some(qi) => chan.queues[qi].current_get_message.is_some(),
                    },
                    ContentTarget::ReturnTarget => chan.current_return.is_some(),
                }
            },
        }
    }

    /// Append `frag` to the scratch delivery (attaching `props` when given)
    /// and either keep assembling or complete the message into its FIFO.
    #[verifier::spinoff_prover]
    #[verifier::rlimit(100)]
    fn content_apply(
        chan: &mut ChannelState,
        target: ContentTarget,
        props: Option<BasicProperties>,
        frag: Vec<u8>,
        complete: bool,
        remaining_after: u64,
    )
        requires
            chan_wf(*old(chan)),
            scratch_delivery_of(*old(chan), target@) is Some,
        ensures
            chan_wf(*final(chan)),
            complete ==> content_completed(*old(chan), *final(chan), target@,
                match props {
                    Some(p) => Some(p@),
                    None => None,
                }, frag@),
            !complete ==> content_advanced(*old(chan), *final(chan), target@,
                match props {
                    Some(p) => Some(p@),
                    None => None,
                }, frag@, remaining_after),
            final(chan).awaiting == old(chan).awaiting,
    {
        let ghost pre = *chan;
        match &target {
            ContentTarget::ConsumerTarget { queue, tag } => {
                let qi = match find_queue(&chan.queues, queue) {
                    Some(qi) => qi,
                    None => {
                        proof {
                            assert(false);
                        }
                        0
                    },
                };
                let ci = match find_consumer(&chan.queues[qi].consumers, tag) {
                    Some(ci) => ci,
                    None => {
                        proof {
                            assert(false);
                        }
                        0
                    },
                };
                let mut q = chan.queues.remove(qi);
                let mut con = q.consumers.remove(ci);
                let mut d = match con.current_message {
                    Some(d) => d,
                    None => {
                        proof {
                            assert(false);
                        }
                        Delivery::new(0, Vec::new(), Vec::new(), false)
                    },
                };
                con.current_message = None;
                match props {
                    Some(p) => {
                        d.properties = p;
                    },
                    None => {},
                }
                d.receive_content(frag);
                if complete {
                    con.messages.push(d);
                    con.current_message = None;
                } else {
                    con.current_message = Some(d);
                }
                q.consumers.insert(ci, con);
                chan.queues.insert(qi, q);
                proof {
                    assert(forall|j: int| 0 <= j < pre.queues@.len() && j != qi as int
                        ==> chan.queues@[j] == pre.queues@[j]);
                    assert(forall|j: int|
                        0 <= j < pre.queues@[qi as int].consumers@.len() && j != ci as int
                            ==> chan.queues@[qi as int].consumers@[j]
                                == pre.queues@[qi as int].consumers@[j]);
                    assert(forall|k: int| 0 <= k < pre.queues@.len()
                        ==> #[trigger] chan.queues@[k].name@ == pre.queues@[k].name@);
                    lemma_queue_index_stable(pre.queues@, chan.queues@, target@->ConsumerTarget_queue);
                    assert(forall|k: int| 0 <= k < pre.queues@[qi as int].consumers@.len()
                        ==> #[trigger] chan.queues@[qi as int].consumers@[k].tag@
                            == pre.queues@[qi as int].consumers@[k].tag@);
                    lemma_consumer_index_stable(
                        pre.queues@[qi as int].consumers@,
                        chan.queues@[qi as int].consumers@,
                        target@->ConsumerTarget_tag,
                    );
                }
            },
            ContentTarget::GetTarget { queue } => {
                let qi = match find_queue(&chan.queues, queue) {
                    Some(qi) => qi,
                    None => {
                        proof {
                            assert(false);
                        }
                        0
                    },
                };
                let mut q = chan.queues.remove(qi);
                let mut m = match q.current_get_message {
                    Some(m) => m,
                    None => {
                        proof {
                            assert(false);
                        }
                        BasicGetMessage::new(0, Vec::new(), Vec::new(), false, 0)
                    },
                };
                q.current_get_message = None;
                match props {
                    Some(p) => {
                        m.delivery.properties = p;
                    },
                    None => {},
                }
                m.delivery.receive_content(frag);
                if complete {
                    q.get_messages.push(m);
                    q.current_get_message = None;
                } else {
                    q.current_get_message = Some(m);
                }
                chan.queues.insert(qi, q);
                proof {
                    assert(forall|j: int| 0 <= j < pre.queues@.len() && j != qi as int
                        ==> chan.queues@[j] == pre.queues@[j]);
                    assert(forall|k: int| 0 <= k < pre.queues@.len()
                        ==> #[trigger] chan.queues@[k].name@ == pre.queues@[k].name@);
                    lemma_queue_index_stable(pre.queues@, chan.queues@, target@->GetTarget_queue);
                }
            },
            ContentTarget::ReturnTarget => {
                let taken = chan.current_return.take();
                let mut d = match taken {
                    Some(d) => d,
                    None => {
                        proof {
                            assert(false);
                        }
                        Delivery::new(0, Vec::new(), Vec::new(), false)
                    },
                };
                match props {
                    Some(p) => {
                        d.properties = p;
                    },
                    None => {},
                }
                d.receive_content(frag);
                if complete {
                } else {
                    chan.current_return = Some(d);
                }
            },
        }
        if complete {
            chan.content = None;
        } else {
            chan.content = Some(ContentScratch {
                target,
                awaiting_header: false,
                remaining: remaining_after,
            });
        }
    }
}

/// The effect of one inbound method frame on channel `c` of a connected
/// connection.
pub open spec fn method_post(
    pre: &Connection,
    post: &Connection,
    c: u16,
    mv: MethodV,
    r: Result<(), Error>,
) -> bool {
    match mv {
        MethodV::BasicAck { delivery_tag, multiple } => if (c as int) < pre.channels@.len() {
            &&& r == Ok::<(), Error>(())
            &&& chans_same_except(pre.channels@, post.channels@, c as int)
            &&& ack_applied(pre.channels@[c as int], post.channels@[c as int], delivery_tag,
                multiple, false)
            &&& post.frame_queue == pre.frame_queue
            &&& post.requests == pre.requests
            &&& conn_core_same(pre, post)
        } else {
            error_post(pre, post, r)
        },
        MethodV::BasicNack { delivery_tag, multiple, .. } => if (c as int)
            < pre.channels@.len() {
            &&& r == Ok::<(), Error>(())
            &&& chans_same_except(pre.channels@, post.channels@, c as int)
            &&& ack_applied(pre.channels@[c as int], post.channels@[c as int], delivery_tag,
                multiple, true)
            &&& post.frame_queue == pre.frame_queue
            &&& post.requests == pre.requests
            &&& conn_core_same(pre, post)
        } else {
            error_post(pre, post, r)
        },
        MethodV::ChannelClose { reply_code, reply_text, class_id, method_id } => if (c as int)
            < pre.channels@.len() {
            r == Ok::<(), Error>(()) && peer_close_applied(pre, post, c, reply_code, reply_text,
                class_id, method_id)
        } else {
            error_post(pre, post, r)
        },
        MethodV::ChannelFlow { active } => if (c as int) < pre.channels@.len() {
            &&& r == Ok::<(), Error>(())
            &&& chans_same_except(pre.channels@, post.channels@, c as int)
            &&& post.channels@[c as int].send_flow == active
            &&& post.channels@[c as int].state == pre.channels@[c as int].state
            &&& post.channels@[c as int].queues == pre.channels@[c as int].queues
            &&& post.channels@[c as int].awaiting == pre.channels@[c as int].awaiting
            &&& post.frame_queue == pre.frame_queue
            &&& post.requests == pre.requests
            &&& conn_core_same(pre, post)
        } else {
            error_post(pre, post, r)
        },
        MethodV::ConnectionClose { reply_code, reply_text, .. } => {
            &&& r == Ok::<(), Error>(())
            &&& post.state == ConnectionState::Closed
            &&& post.close_code == reply_code
            &&& post.close_reason@ == reply_text
            &&& queue_extended(pre.frame_queue@, post.frame_queue@,
                seq![FrameV::Method(0, MethodV::ConnectionCloseOk)])
            &&& post.channels@.len() == pre.channels@.len()
            &&& forall|k: int| 0 <= k < post.channels@.len()
                ==> (#[trigger] post.channels@[k]).state == ChannelStatus::Closed
                    && post.channels@[k].awaiting@ == Seq::<Awaiting>::empty()
                    && post.channels@[k].queues == pre.channels@[k].queues
            &&& post.requests@.len() == pre.requests@.len()
            &&& forall|i: int| 0 <= i < pre.requests@.len()
                ==> #[trigger] post.requests@[i] == (if conn_aw_has_id(pre.channels@, i) {
                    RequestStatus::Finished(false)
                } else {
                    pre.requests@[i]
                })
        },
        MethodV::ConnectionCloseOk => {
            &&& r == Ok::<(), Error>(())
            &&& post.state == ConnectionState::Closed
            &&& post.channels == pre.channels
            &&& post.frame_queue == pre.frame_queue
            &&& post.requests == pre.requests
        },
        MethodV::BasicDeliver { consumer_tag, delivery_tag, redelivered, exchange, routing_key } =>
            if (c as int) < pre.channels@.len()
                && pre.channels@[c as int].content is None
                && queue_with_consumer(pre.channels@[c as int].queues@, consumer_tag) is Some {
                &&& r == Ok::<(), Error>(())
                &&& chans_same_except(pre.channels@, post.channels@, c as int)
                &&& deliver_started(pre.channels@[c as int], post.channels@[c as int],
                    consumer_tag, delivery_tag, redelivered, exchange, routing_key)
                &&& post.frame_queue == pre.frame_queue
                &&& post.requests == pre.requests
                &&& conn_core_same(pre, post)
            } else {
                error_post(pre, post, r)
            },
        MethodV::BasicReturn { exchange, routing_key, .. } => if (c as int)
            < pre.channels@.len() && pre.channels@[c as int].content is None {
            &&& r == Ok::<(), Error>(())
            &&& chans_same_except(pre.channels@, post.channels@, c as int)
            &&& return_started(pre.channels@[c as int], post.channels@[c as int], exchange,
                routing_key)
            &&& post.frame_queue == pre.frame_queue
            &&& post.requests == pre.requests
            &&& conn_core_same(pre, post)
        } else {
            error_post(pre, post, r)
        },
        MethodV::ChannelOpenOk { .. } | MethodV::ChannelFlowOk { .. } | MethodV::ChannelCloseOk
            | MethodV::AccessRequestOk { .. } | MethodV::ExchangeDeclareOk
            | MethodV::ExchangeDeleteOk | MethodV::ExchangeBindOk | MethodV::ExchangeUnbindOk
            | MethodV::QueueDeclareOk { .. } | MethodV::QueueBindOk | MethodV::QueueUnbindOk
            | MethodV::QueuePurgeOk { .. } | MethodV::QueueDeleteOk { .. } | MethodV::BasicQosOk
            | MethodV::BasicConsumeOk { .. } | MethodV::BasicGetOk { .. }
            | MethodV::BasicGetEmpty { .. } | MethodV::ConfirmSelectOk => if (c as int)
            < pre.channels@.len() && pre.channels@[c as int].content is None {
            let aw = pre.channels@[c as int].awaiting@;
            if aw.len() > 0 && reply_matches(aw[0]@.expected, mv) {
                &&& r == Ok::<(), Error>(())
                &&& front_resolution(pre, post, c, reply_status(aw[0]@.expected, mv))
                &&& reply_effect(pre.channels@[c as int], post.channels@[c as int],
                    aw[0]@.expected, mv)
                &&& reply_content(pre.channels@[c as int], post.channels@[c as int],
                    aw[0]@.expected, mv)
            } else {
                error_post(pre, post, r)
            }
        } else {
            error_post(pre, post, r)
        },
        _ => error_post(pre, post, r),
    }
}

/// The whole behavior of `handle_frame`.
pub open spec fn handle_frame_post(
    pre: &Connection,
    post: &Connection,
    fv: FrameV,
    r: Result<(), Error>,
) -> bool {
    match pre.state {
        ConnectionState::Connecting(stage) => match stage {
            ConnectingState::SentProtocolHeader => match fv {
                FrameV::Method(ch, MethodV::ConnectionStart { .. }) => if ch == 0 {
                    &&& r == Ok::<(), Error>(())
                    &&& post.state == ConnectionState::Connecting(ConnectingState::SentStartOk)
                    &&& queue_extended(pre.frame_queue@, post.frame_queue@,
                        seq![FrameV::Method(0, start_ok_v(pre.username@, pre.password@))])
                    &&& post.channels == pre.channels
                    &&& post.requests == pre.requests
                    &&& post.configuration == pre.configuration
                    &&& post.username == pre.username
                    &&& post.password == pre.password
                    &&& post.vhost == pre.vhost
                } else {
                    error_post(pre, post, r)
                },
                _ => error_post(pre, post, r),
            },
            ConnectingState::SentStartOk => match fv {
                FrameV::Method(ch, MethodV::ConnectionTune { channel_max, frame_max, heartbeat }) =>
                    if ch == 0 {
                        let eff = ConnectionConfiguration {
                            channel_max: spec_negotiate_u16(pre.configuration.channel_max,
                                channel_max),
                            frame_max: spec_negotiate_u32(pre.configuration.frame_max, frame_max),
                            heartbeat: spec_negotiate_u16(pre.configuration.heartbeat, heartbeat),
                        };
                        &&& r == Ok::<(), Error>(())
                        &&& post.configuration == eff
                        &&& post.state == ConnectionState::Connecting(ConnectingState::SentOpen)
                        &&& queue_extended(pre.frame_queue@, post.frame_queue@, seq![
                            FrameV::Method(0, MethodV::ConnectionTuneOk {
                                channel_max: eff.channel_max,
                                frame_max: eff.frame_max,
                                heartbeat: eff.heartbeat,
                            }),
                            FrameV::Method(0, MethodV::ConnectionOpen {
                                virtual_host: pre.vhost@,
                                capabilities: Seq::<u8>::empty(),
                                insist: false,
                            }),
                        ])
                        &&& post.channels == pre.channels
                        &&& post.requests == pre.requests
                        &&& post.username == pre.username
                        &&& post.password == pre.password
                        &&& post.vhost == pre.vhost
                    } else {
                        error_post(pre, post, r)
                    },
                _ => error_post(pre, post, r),
            },
            ConnectingState::SentOpen => match fv {
                FrameV::Method(ch, MethodV::ConnectionOpenOk { .. }) => if ch == 0 {
                    &&& r == Ok::<(), Error>(())
                    &&& post.state == ConnectionState::Connected
                    &&& post.frame_queue == pre.frame_queue
                    &&& post.channels == pre.channels
                    &&& post.requests == pre.requests
                    &&& post.configuration == pre.configuration
                    &&& post.username == pre.username
                    &&& post.password == pre.password
                    &&& post.vhost == pre.vhost
                } else {
                    error_post(pre, post, r)
                },
                _ => error_post(pre, post, r),
            },
            _ => error_post(pre, post, r),
        },
        ConnectionState::Connected => match fv {
            FrameV::Heartbeat(ch) => if ch == 0 {
                r == Ok::<(), Error>(()) && post == pre
            } else {
                error_post(pre, post, r)
            },
            FrameV::Method(c, mv) => method_post(pre, post, c, mv, r),
            FrameV::Header(c, _cls, hv) => if (c as int) < pre.channels@.len()
                && header_ok_pre(pre.channels@[c as int]) {
                &&& r == Ok::<(), Error>(())
                &&& chans_same_except(pre.channels@, post.channels@, c as int)
                &&& (pre.channels@[c as int].content matches Some(sc) ==> if hv.body_size == 0 {
                    content_completed(pre.channels@[c as int], post.channels@[c as int],
                        sc.target@, Some(hv.properties), Seq::<u8>::empty())
                } else {
                    content_advanced(pre.channels@[c as int], post.channels@[c as int],
                        sc.target@, Some(hv.properties), Seq::<u8>::empty(), hv.body_size)
                })
                &&& post.frame_queue == pre.frame_queue
                &&& post.requests == pre.requests
                &&& conn_core_same(pre, post)
            } else {
                error_post(pre, post, r)
            },
            FrameV::Body(c, data) => if (c as int) < pre.channels@.len()
                && body_ok_pre(pre.channels@[c as int], data.len()) {
                &&& r == Ok::<(), Error>(())
                &&& chans_same_except(pre.channels@, post.channels@, c as int)
                &&& (pre.channels@[c as int].content matches Some(sc)
                    ==> if data.len() == sc.remaining as nat {
                    content_completed(pre.channels@[c as int], post.channels@[c as int],
                        sc.target@, None, data)
                } else {
                    content_advanced(pre.channels@[c as int], post.channels@[c as int],
                        sc.target@, None, data, (sc.remaining - data.len()) as u64)
                })
                &&& post.frame_queue == pre.frame_queue
                &&& post.requests == pre.requests
                &&& conn_core_same(pre, post)
            } else {
                error_post(pre, post, r)
            },
            FrameV::ProtocolHeader => error_post(pre, post, r),
        },
        _ => error_post(pre, post, r),
    }
}

impl Connection {
    /// Start assembling a consumer delivery.
    #[verifier::spinoff_prover]
    #[verifier::rlimit(100)]
    fn start_deliver(
        &mut self,
        c: u16,
        consumer_tag: Vec<u8>,
        delivery_tag: u64,
        redelivered: bool,
        exchange: Vec<u8>,
        routing_key: Vec<u8>,
    ) -> (r: Result<(), Error>)
        requires
            conn_wf(old(self)),
        ensures
            conn_wf(final(self)),
            if (c as int) < old(self).channels@.len()
                && old(self).channels@[c as int].content is None
                && queue_with_consumer(old(self).channels@[c as int].queues@, consumer_tag@)
                    is Some {
                &&& r == Ok::<(), Error>(())
                &&& chans_same_except(old(self).channels@, final(self).channels@, c as int)
                &&& deliver_started(old(self).channels@[c as int],
                    final(self).channels@[c as int], consumer_tag@, delivery_tag, redelivered,
                    exchange@, routing_key@)
                &&& final(self).frame_queue == old(self).frame_queue
                &&& final(self).requests == old(self).requests
                &&& conn_core_same(old(self), final(self))
            } else {
                error_post(old(self), final(self), r)
            },
    {
        if c as usize >= self.channels.len() {
            return self.protocol_violation();
        }
        let ci = c as usize;
        if self.channels[ci].content.is_some() {
            return self.protocol_violation();
        }
        let qi = match find_queue_with_consumer(&self.channels[ci].queues, &consumer_tag) {
            Some(qi) => qi,
            None => {
                return self.protocol_violation();
            },
        };
        proof {
            lemma_queue_with_consumer_some(self.channels@[ci as int].queues@, consumer_tag@);
        }
        let cii = match find_consumer(&self.channels[ci].queues[qi].consumers, &consumer_tag) {
            Some(cii) => cii,
            None => {
                proof {
                    assert(false);
                }
                return self.protocol_violation();
            },
        };
        let mut chan = self.channels.remove(ci);
        let ghost pre_ch = chan;
        let mut q = chan.queues.remove(qi);
        let qname = crate::wire::copy_range(&q.name, 0, q.name.len());
        proof {
            assert(qname@ =~= pre_ch.queues@[qi as int].name@);
        }
        let tag2 = crate::wire::copy_range(&consumer_tag, 0, consumer_tag.len());
        proof {
            assert(tag2@ =~= consumer_tag@);
        }
        let mut con = q.consumers.remove(cii);
        con.current_message = Some(Delivery::new(delivery_tag, exchange, routing_key, redelivered));
        q.consumers.insert(cii, con);
        chan.queues.insert(qi, q);
        chan.content = Some(ContentScratch {
            target: ContentTarget::ConsumerTarget { queue: qname, tag: tag2 },
            awaiting_header: true,
            remaining: 0,
        });
        proof {
            assert(forall|j: int| 0 <= j < pre_ch.queues@.len() && j != qi as int
                ==> chan.queues@[j] == pre_ch.queues@[j]);
            assert(forall|j: int|
                0 <= j < pre_ch.queues@[qi as int].consumers@.len() && j != cii as int
                    ==> chan.queues@[qi as int].consumers@[j]
                        == pre_ch.queues@[qi as int].consumers@[j]);
        }
        self.channels.insert(ci, chan);
        proof {
            assert(chans_same_except(old(self).channels@, self.channels@, c as int));
        }
        Ok(())
    }

    /// Start assembling a returned message.
    fn start_return(&mut self, c: u16, exchange: Vec<u8>, routing_key: Vec<u8>) -> (r: Result<
        (),
        Error,
    >)
        requires
            conn_wf(old(self)),
        ensures
            conn_wf(final(self)),
            if (c as int) < old(self).channels@.len()
                && old(self).channels@[c as int].content is None {
                &&& r == Ok::<(), Error>(())
                &&& chans_same_except(old(self).channels@, final(self).channels@, c as int)
                &&& return_started(old(self).channels@[c as int],
                    final(self).channels@[c as int], exchange@, routing_key@)
                &&& final(self).frame_queue == old(self).frame_queue
                &&& final(self).requests == old(self).requests
                &&& conn_core_same(old(self), final(self))
            } else {
                error_post(old(self), final(self), r)
            },
    {
        if c as usize >= self.channels.len() {
            return self.protocol_violation();
        }
        let ci = c as usize;
        if self.channels[ci].content.is_some() {
            return self.protocol_violation();
        }
        let mut chan = self.channels.remove(ci);
        chan.current_return = Some(Delivery::new(0, exchange, routing_key, false));
        chan.content = Some(ContentScratch {
            target: ContentTarget::ReturnTarget,
            awaiting_header: true,
            remaining: 0,
        });
        self.channels.insert(ci, chan);
        proof {
            assert(chans_same_except(old(self).channels@, self.channels@, c as int));
        }
        Ok(())
    }

    /// Apply an inbound content header frame.
    #[verifier::spinoff_prover]
    #[verifier::rlimit(100)]
    fn handle_header_frame(&mut self, c: u16, h: ContentHeader) -> (r: Result<(), Error>)
        requires
            conn_wf(old(self)),
        ensures
            conn_wf(final(self)),
            if (c as int) < old(self).channels@.len()
                && header_ok_pre(old(self).channels@[c as int]) {
                &&& r == Ok::<(), Error>(())
                &&& chans_same_except(old(self).channels@, final(self).channels@, c as int)
                &&& (old(self).channels@[c as int].content matches Some(sc)
                    ==> if h.body_size == 0 {
                    content_completed(old(self).channels@[c as int],
                        final(self).channels@[c as int], sc.target@, Some(h.properties@),
                        Seq::<u8>::empty())
                } else {
                    content_advanced(old(self).channels@[c as int],
                        final(self).channels@[c as int], sc.target@, Some(h.properties@),
                        Seq::<u8>::empty(), h.body_size)
                })
                &&& final(self).frame_queue == old(self).frame_queue
                &&& final(self).requests == old(self).requests
                &&& conn_core_same(old(self), final(self))
            } else {
                error_post(old(self), final(self), r)
            },
    {
        if c as usize >= self.channels.len() {
            return self.protocol_violation();
        }
        let ci = c as usize;
        if !Self::content_check(&self.channels[ci], false, 0) {
            return self.protocol_violation();
        }
        let mut chan = self.channels.remove(ci);
        let taken = chan.content.take();
        let sc = match taken {
            Some(sc) => sc,
            None => {
                proof {
                    assert(false);
                }
                return self.protocol_violation();
            },
        };
        let complete = h.body_size == 0;
        Self::content_apply(&mut chan, sc.target, Some(h.properties), Vec::new(), complete,
            h.body_size);
        self.channels.insert(ci, chan);
        proof {
            assert(chans_same_except(old(self).channels@, self.channels@, c as int));
        }
        Ok(())
    }

    /// Apply an inbound content body frame.
    #[verifier::spinoff_prover]
    #[verifier::rlimit(100)]
    fn handle_body_frame(&mut self, c: u16, data: Vec<u8>) -> (r: Result<(), Error>)
        requires
            conn_wf(old(self)),
        ensures
            conn_wf(final(self)),
            if (c as int) < old(self).channels@.len()
                && body_ok_pre(old(self).channels@[c as int], data@.len()) {
                &&& r == Ok::<(), Error>(())
                &&& chans_same_except(old(self).channels@, final(self).channels@, c as int)
                &&& (old(self).channels@[c as int].content matches Some(sc)
                    ==> if data@.len() == sc.remaining as nat {
                    content_completed(old(self).channels@[c as int],
                        final(self).channels@[c as int], sc.target@, None, data@)
                } else {
                    content_advanced(old(self).channels@[c as int],
                        final(self).channels@[c as int], sc.target@, None, data@,
                        (sc.remaining - data@.len()) as u64)
                })
                &&& final(self).frame_queue == old(self).frame_queue
                &&& final(self).requests == old(self).requests
                &&& conn_core_same(old(self), final(self))
            } else {
                error_post(old(self), final(self), r)
            },
    {
        if c as usize >= self.channels.len() {
            return self.protocol_violation();
        }
        let ci = c as usize;
        if !Self::content_check(&self.channels[ci], true, data.len() as u64) {
            return self.protocol_violation();
        }
        let mut chan = self.channels.remove(ci);
        let taken = chan.content.take();
        let sc = match taken {
            Some(sc) => sc,
            None => {
                proof {
                    assert(false);
                }
                return self.protocol_violation();
            },
        };
        let n = data.len() as u64;
        let complete = n == sc.remaining;
        let remaining_after = sc.remaining - n;
        Self::content_apply(&mut chan, sc.target, None, data, complete, remaining_after);
        self.channels.insert(ci, chan);
        proof {
            assert(chans_same_except(old(self).channels@, self.channels@, c as int));
        }
        Ok(())
    }

    /// Close every channel and the connection after an inbound
    /// `connection.close`, failing all outstanding requests.
    fn handle_connection_close(&mut self, code: u16, reason: Vec<u8>) -> (r: Result<(), Error>)
        requires
            conn_wf(old(self)),
        ensures
            conn_wf(final(self)),
            r == Ok::<(), Error>(()),
            final(self).state == ConnectionState::Closed,
            final(self).close_code == code,
            final(self).close_reason@ == reason@,
            queue_extended(old(self).frame_queue@, final(self).frame_queue@,
                seq![FrameV::Method(0, MethodV::ConnectionCloseOk)]),
            final(self).channels@.len() == old(self).channels@.len(),
            forall|k: int| 0 <= k < final(self).channels@.len()
                ==> (#[trigger] final(self).channels@[k]).state == ChannelStatus::Closed
                    && final(self).channels@[k].awaiting@ == Seq::<Awaiting>::empty()
                    && final(self).channels@[k].queues == old(self).channels@[k].queues,
            final(self).requests@.len() == old(self).requests@.len(),
            forall|i: int| 0 <= i < old(self).requests@.len()
                ==> #[trigger] final(self).requests@[i] == (if conn_aw_has_id(
                    old(self).channels@,
                    i,
                ) {
                    RequestStatus::Finished(false)
                } else {
                    old(self).requests@[i]
                }),
    {
        let n = self.channels.len();
        let mut k: usize = 0;
        while k < n
            invariant
                conn_wf(self),
                k <= n,
                n == self.channels@.len(),
                self.channels@.len() == old(self).channels@.len(),
                forall|j: int| 0 <= j < k
                    ==> (#[trigger] self.channels@[j]).state == ChannelStatus::Closed
                        && self.channels@[j].awaiting@ == Seq::<Awaiting>::empty()
                        && self.channels@[j].queues == old(self).channels@[j].queues,
                forall|j: int| k <= j < n
                    ==> #[trigger] self.channels@[j] == old(self).channels@[j],
                self.requests@.len() == old(self).requests@.len(),
                forall|i: int| 0 <= i < old(self).requests@.len()
                    ==> #[trigger] self.requests@[i] == (if (exists|j: int|
                        0 <= j < k as int && aw_has_id(
                            old(self).channels@[j].awaiting@,
                            i,
                        )) {
                        RequestStatus::Finished(false)
                    } else {
                        old(self).requests@[i]
                    }),
                self.frame_queue == old(self).frame_queue,
                conn_core_same(old(self), self),
            decreases n - k,
        {
            let mut chan = self.channels.remove(k);
            let aw = chan.awaiting;
            proof {
                assert(aw@ == old(self).channels@[k as int].awaiting@);
            }
            chan.awaiting = Vec::new();
            chan.state = ChannelStatus::Closed;
            chan.content = None;
            chan.current_return = None;
            self.channels.insert(k, chan);
            let ghost req_before = self.requests@;
            self.fail_requests(&aw);
            proof {
                assert forall|i: int| 0 <= i < old(self).requests@.len() implies
                    self.requests@[i] == (if (exists|j: int|
                        0 <= j < k as int + 1 && aw_has_id(
                            old(self).channels@[j].awaiting@,
                            i,
                        )) {
                        RequestStatus::Finished(false)
                    } else {
                        old(self).requests@[i]
                    }) by {
                    if exists|j: int| 0 <= j < k as int + 1 && aw_has_id(
                        old(self).channels@[j].awaiting@,
                        i,
                    ) {
                        let j = choose|j: int|
                            0 <= j < k as int + 1 && aw_has_id(
                                old(self).channels@[j].awaiting@,
                                i,
                            );
                        if j < k as int {
                            assert(req_before[i] == RequestStatus::Finished(false));
                        }
                    } else {
                        assert(!(exists|j: int| 0 <= j < k as int && aw_has_id(
                            old(self).channels@[j].awaiting@,
                            i,
                        )));
                        assert(!aw_has_id(aw@, i));
                    }
                }
            }
            k = k + 1;
        }
        self.state = ConnectionState::Closed;
        self.close_code = code;
        self.close_reason = reason;
        self.frame_queue.push(Frame::Method(0, Method::ConnectionCloseOk));
        Ok(())
    }
}

impl Connection {
    /// Dispatch one inbound method frame on a connected connection.
    #[verifier::spinoff_prover]
    #[verifier::rlimit(100)]
    fn handle_method(&mut self, c: u16, m: Method) -> (r: Result<(), Error>)
        requires
            conn_wf(old(self)),
            old(self).state == ConnectionState::Connected,
        ensures
            conn_wf(final(self)),
            method_post(old(self), final(self), c, m@, r),
    {
        match m {
            Method::BasicAck { delivery_tag, multiple } => {
                if c as usize >= self.channels.len() {
                    return self.protocol_violation();
                }
                self.handle_confirm(c, delivery_tag, multiple, false)
            },
            Method::BasicNack { delivery_tag, multiple, .. } => {
                if c as usize >= self.channels.len() {
                    return self.protocol_violation();
                }
                self.handle_confirm(c, delivery_tag, multiple, true)
            },
            Method::ChannelClose { reply_code, reply_text, class_id, method_id } => {
                if c as usize >= self.channels.len() {
                    return self.protocol_violation();
                }
                self.handle_channel_close(c, reply_code, reply_text, class_id, method_id)
            },
            Method::ChannelFlow { active } => {
                if c as usize >= self.channels.len() {
                    return self.protocol_violation();
                }
                let ci = c as usize;
                let mut chan = self.channels.remove(ci);
                chan.send_flow = active;
                self.channels.insert(ci, chan);
                proof {
                    assert(chans_same_except(old(self).channels@, self.channels@, c as int));
                }
                Ok(())
            },
            Method::ConnectionClose { reply_code, reply_text, .. } => self
                .handle_connection_close(reply_code, reply_text),
            Method::ConnectionCloseOk => {
                self.state = ConnectionState::Closed;
                Ok(())
            },
            Method::BasicDeliver {
                consumer_tag, delivery_tag, redelivered, exchange, routing_key,
            } => self.start_deliver(c, consumer_tag, delivery_tag, redelivered, exchange,
                routing_key),
            Method::BasicReturn { exchange, routing_key, .. } => self.start_return(c, exchange,
                routing_key),
            Method::ChannelOpenOk { .. } | Method::ChannelFlowOk { .. } | Method::ChannelCloseOk
                | Method::AccessRequestOk { .. } | Method::ExchangeDeclareOk
                | Method::ExchangeDeleteOk | Method::ExchangeBindOk | Method::ExchangeUnbindOk
                | Method::QueueDeclareOk { .. } | Method::QueueBindOk | Method::QueueUnbindOk
                | Method::QueuePurgeOk { .. } | Method::QueueDeleteOk { .. }
                | Method::BasicQosOk | Method::BasicConsumeOk { .. } | Method::BasicGetOk { .. }
                | Method::BasicGetEmpty { .. } | Method::ConfirmSelectOk => {
                if c as usize >= self.channels.len() {
                    return self.protocol_violation();
                }
                if self.channels[c as usize].content.is_some() {
                    return self.protocol_violation();
                }
                self.handle_reply(c, m)
            },
            _ => self.protocol_violation(),
        }
    }

    /// Dispatch one inbound frame: drive the handshake while connecting,
    /// route methods, headers and body fragments while connected, and treat
    /// anything else as a protocol violation.
    #[verifier::spinoff_prover]
    #[verifier::rlimit(100)]
    pub fn handle_frame(&mut self, f: Frame) -> (r: Result<(), Error>)
        requires
            conn_wf(old(self)),
        ensures
            conn_wf(final(self)),
            handle_frame_post(old(self), final(self), f@, r),
    {
        let st = self.state;
        match st {
            ConnectionState::Connecting(stage) => match stage {
                ConnectingState::SentProtocolHeader => match f {
                    Frame::Method(ch, Method::ConnectionStart { .. }) => {
                        if ch != 0 {
                            return self.protocol_violation();
                        }
                        let reply = start_ok_method(&self.username, &self.password);
                        self.frame_queue.push(Frame::Method(0, reply));
                        self.state = ConnectionState::Connecting(ConnectingState::SentStartOk);
                        Ok(())
                    },
                    _ => self.protocol_violation(),
                },
                ConnectingState::SentStartOk => match f {
                    Frame::Method(ch, Method::ConnectionTune {
                        channel_max, frame_max, heartbeat,
                    }) => {
                        if ch != 0 {
                            return self.protocol_violation();
                        }
                        let eff_cm = negotiate_u16(self.configuration.channel_max, channel_max);
                        let eff_fm = negotiate_u32(self.configuration.frame_max, frame_max);
                        let eff_hb = negotiate_u16(self.configuration.heartbeat, heartbeat);
                        self.configuration.channel_max = eff_cm;
                        self.configuration.frame_max = eff_fm;
                        self.configuration.heartbeat = eff_hb;
                        self.frame_queue.push(Frame::Method(0, Method::ConnectionTuneOk {
                            channel_max: eff_cm,
                            frame_max: eff_fm,
                            heartbeat: eff_hb,
                        }));
                        let vh = crate::wire::copy_range(&self.vhost, 0, self.vhost.len());
                        proof {
                            assert(vh@ =~= old(self).vhost@);
                        }
                        self.frame_queue.push(Frame::Method(0, Method::ConnectionOpen {
                            virtual_host: vh,
                            capabilities: Vec::new(),
                            insist: false,
                        }));
                        self.state = ConnectionState::Connecting(ConnectingState::SentOpen);
                        Ok(())
                    },
                    _ => self.protocol_violation(),
                },
                ConnectingState::SentOpen => match f {
                    Frame::Method(ch, Method::ConnectionOpenOk { .. }) => {
                        if ch != 0 {
                            return self.protocol_violation();
                        }
                        self.state = ConnectionState::Connected;
                        Ok(())
                    },
                    _ => self.protocol_violation(),
                },
                _ => self.protocol_violation(),
            },
            ConnectionState::Connected => match f {
                Frame::Heartbeat(ch) => {
                    if ch == 0 {
                        Ok(())
                    } else {
                        self.protocol_violation()
                    }
                },
                Frame::Method(c, m) => self.handle_method(c, m),
                Frame::Header(c, _cls, h) => self.handle_header_frame(c, h),
                Frame::Body(c, data) => self.handle_body_frame(c, data),
                Frame::ProtocolHeader => self.protocol_violation(),
            },
            _ => self.protocol_violation(),
        }
    }
}

impl Connection {
    /// What a basic-get waiter observes: `None` while pending, `Ok` once a
    /// message is on its way, and the empty-queue error when the broker
    /// reported `basic.get-empty`.
    pub fn basic_get_result(&self, id: RequestId) -> (r: Option<Result<(), Error>>)
        ensures
            r == (if (id as int) < self.requests@.len() {
                match self.requests@[id as int] {
                    RequestStatus::FinishedGet(true) => Some(Ok::<(), Error>(())),
                    RequestStatus::FinishedGet(false) => Some(Err::<(), Error>(
                        Error::BasicGetEmpty,
                    )),
                    _ => None::<Result<(), Error>>,
                }
            } else {
                None::<Result<(), Error>>
            }),
    {
        if (id as usize) < self.requests.len() {
            match self.requests[id as usize] {
                RequestStatus::FinishedGet(true) => Some(Ok(())),
                RequestStatus::FinishedGet(false) => Some(Err(Error::BasicGetEmpty)),
                _ => None,
            }
        } else {
            None
        }
    }
}

impl Connection {
    /// The broker's rejection recorded on a channel, if one closed it: the
    /// `channel.close` code, reason, and offending class and method ids.
    pub fn channel_error(&self, channel_id: u16) -> (r: Option<Error>)
        ensures
            ({
                let live = (channel_id as int) < self.channels@.len()
                    && (self.channels@[channel_id as int].state == ChannelStatus::Closed
                        || self.channels@[channel_id as int].state == ChannelStatus::Error)
                    && self.channels@[channel_id as int].error_code != 0;
                if live {
                    &&& r matches Some(Error::ProtocolError { code, reason, class_id, method_id })
                    &&& r matches Some(Error::ProtocolError {
                        code, reason, class_id, method_id,
                    }) ==> {
                        &&& code == self.channels@[channel_id as int].error_code
                        &&& reason@ == self.channels@[channel_id as int].error_reason@
                        &&& class_id == self.channels@[channel_id as int].error_class_id
                        &&& method_id == self.channels@[channel_id as int].error_method_id
                    }
                } else {
                    r is None
                }
            }),
    {
        if channel_id as usize >= self.channels.len() {
            return None;
        }
        let chan = &self.channels[channel_id as usize];
        if (matches!(chan.state, ChannelStatus::Closed)
            || matches!(chan.state, ChannelStatus::Error)) && chan.error_code != 0 {
            let reason = crate::wire::copy_range(&chan.error_reason, 0, chan.error_reason.len());
            proof {
                assert(reason@ =~= chan.error_reason@);
            }
            Some(Error::ProtocolError {
                code: chan.error_code,
                reason,
                class_id: chan.error_class_id,
                method_id: chan.error_method_id,
            })
        } else {
            None
        }
    }
}

} // verus!
