//! Typed representation of AMQP 0-9-1 frames and methods, together with the
//! specification-level views (`Seq`-based shadows) that the codec and the
//! connection state machine reason about.

use vstd::prelude::*;

verus! {

// ---------------------------------------------------------------------------
// Field tables
// ---------------------------------------------------------------------------

/// One value of a field table.  A nested table is carried as its raw wire
/// content (the bytes between the length prefix and the end of the table), so
/// that the codec stays bit-exact without parsing into nested tables.
#[derive(Clone, Debug, PartialEq, Eq)]
pub enum FieldValue {
    Boolean(bool),
    LongInt(i32),
    LongString(Vec<u8>),
    Table(Vec<u8>),
}

#[derive(Clone, Debug, PartialEq, Eq)]
pub struct TableEntry {
    pub key: Vec<u8>,
    pub value: FieldValue,
}

/// A field table, ordered as it appears on the wire.
pub type FieldTable = Vec<TableEntry>;

pub enum FieldValueV {
    Boolean(bool),
    LongInt(i32),
    LongString(Seq<u8>),
    Table(Seq<u8>),
}

pub struct TableEntryV {
    pub key: Seq<u8>,
    pub value: FieldValueV,
}

impl View for FieldValue {
    type V = FieldValueV;

    open spec fn view(&self) -> FieldValueV {
        match self {
            FieldValue::Boolean(b) => FieldValueV::Boolean(*b),
            FieldValue::LongInt(v) => FieldValueV::LongInt(*v),
            FieldValue::LongString(s) => FieldValueV::LongString(s@),
            FieldValue::Table(s) => FieldValueV::Table(s@),
        }
    }
}

impl View for TableEntry {
    type V = TableEntryV;

    open spec fn view(&self) -> TableEntryV {
        TableEntryV { key: self.key@, value: self.value@ }
    }
}

/// The view of a field table.
pub open spec fn table_v(t: Seq<TableEntry>) -> Seq<TableEntryV> {
    t.map_values(|e: TableEntry| e@)
}

// ---------------------------------------------------------------------------
// Basic properties (the content header of class `basic`)
// ---------------------------------------------------------------------------

#[derive(Clone, Debug, PartialEq, Eq)]
pub struct BasicProperties {
    pub content_type: Option<Vec<u8>>,
    pub content_encoding: Option<Vec<u8>>,
    pub headers: Option<FieldTable>,
    pub delivery_mode: Option<u8>,
    pub priority: Option<u8>,
    pub correlation_id: Option<Vec<u8>>,
    pub reply_to: Option<Vec<u8>>,
    pub expiration: Option<Vec<u8>>,
    pub message_id: Option<Vec<u8>>,
    pub timestamp: Option<u64>,
    pub message_type: Option<Vec<u8>>,
    pub user_id: Option<Vec<u8>>,
    pub app_id: Option<Vec<u8>>,
    pub cluster_id: Option<Vec<u8>>,
}

pub struct PropsV {
    pub content_type: Option<Seq<u8>>,
    pub content_encoding: Option<Seq<u8>>,
    pub headers: Option<Seq<TableEntryV>>,
    pub delivery_mode: Option<u8>,
    pub priority: Option<u8>,
    pub correlation_id: Option<Seq<u8>>,
    pub reply_to: Option<Seq<u8>>,
    pub expiration: Option<Seq<u8>>,
    pub message_id: Option<Seq<u8>>,
    pub timestamp: Option<u64>,
    pub message_type: Option<Seq<u8>>,
    pub user_id: Option<Seq<u8>>,
    pub app_id: Option<Seq<u8>>,
    pub cluster_id: Option<Seq<u8>>,
}

pub open spec fn opt_bytes_v(o: Option<Vec<u8>>) -> Option<Seq<u8>> {
    match o {
        Some(v) => Some(v@),
        None => None,
    }
}

pub open spec fn opt_table_v(o: Option<Vec<TableEntry>>) -> Option<Seq<TableEntryV>> {
    match o {
        Some(t) => Some(table_v(t@)),
        None => None,
    }
}

impl View for BasicProperties {
    type V = PropsV;

    open spec fn view(&self) -> PropsV {
        PropsV {
            content_type: opt_bytes_v(self.content_type),
            content_encoding: opt_bytes_v(self.content_encoding),
            headers: opt_table_v(self.headers),
            delivery_mode: self.delivery_mode,
            priority: self.priority,
            correlation_id: opt_bytes_v(self.correlation_id),
            reply_to: opt_bytes_v(self.reply_to),
            expiration: opt_bytes_v(self.expiration),
            message_id: opt_bytes_v(self.message_id),
            timestamp: self.timestamp,
            message_type: opt_bytes_v(self.message_type),
            user_id: opt_bytes_v(self.user_id),
            app_id: opt_bytes_v(self.app_id),
            cluster_id: opt_bytes_v(self.cluster_id),
        }
    }
}

/// The property set with every field absent.
pub open spec fn empty_props() -> PropsV {
    PropsV {
        content_type: None,
        content_encoding: None,
        headers: None,
        delivery_mode: None,
        priority: None,
        correlation_id: None,
        reply_to: None,
        expiration: None,
        message_id: None,
        timestamp: None,
        message_type: None,
        user_id: None,
        app_id: None,
        cluster_id: None,
    }
}

impl BasicProperties {
    /// Properties with every field absent.
    pub fn empty() -> (r: BasicProperties)
        ensures
            r@ == empty_props(),
    {
        BasicProperties {
            content_type: None,
            content_encoding: None,
            headers: None,
            delivery_mode: None,
            priority: None,
            correlation_id: None,
            reply_to: None,
            expiration: None,
            message_id: None,
            timestamp: None,
            message_type: None,
            user_id: None,
            app_id: None,
            cluster_id: None,
        }
    }
}

impl Default for BasicProperties {
    fn default() -> (r: BasicProperties)
        ensures
            r@ == empty_props(),
    {
        BasicProperties::empty()
    }
}

// ---------------------------------------------------------------------------
// Methods
// ---------------------------------------------------------------------------

/// A typed AMQP method with its arguments, covering every method the core
/// sends or receives.
#[derive(Clone, Debug, PartialEq, Eq)]
pub enum Method {
    ConnectionStart {
        version_major: u8,
        version_minor: u8,
        server_properties: FieldTable,
        mechanisms: Vec<u8>,
        locales: Vec<u8>,
    },
    ConnectionStartOk {
        client_properties: FieldTable,
        mechanism: Vec<u8>,
        response: Vec<u8>,
        locale: Vec<u8>,
    },
    ConnectionTune { channel_max: u16, frame_max: u32, heartbeat: u16 },
    ConnectionTuneOk { channel_max: u16, frame_max: u32, heartbeat: u16 },
    ConnectionOpen { virtual_host: Vec<u8>, capabilities: Vec<u8>, insist: bool },
    ConnectionOpenOk { known_hosts: Vec<u8> },
    ConnectionClose { reply_code: u16, reply_text: Vec<u8>, class_id: u16, method_id: u16 },
    ConnectionCloseOk,
    ChannelOpen { out_of_band: Vec<u8> },
    ChannelOpenOk { channel_id: Vec<u8> },
    ChannelFlow { active: bool },
    ChannelFlowOk { active: bool },
    ChannelClose { reply_code: u16, reply_text: Vec<u8>, class_id: u16, method_id: u16 },
    ChannelCloseOk,
    AccessRequest {
        realm: Vec<u8>,
        exclusive: bool,
        passive: bool,
        active: bool,
        write: bool,
        read: bool,
    },
    AccessRequestOk { ticket: u16 },
    ExchangeDeclare {
        ticket: u16,
        exchange: Vec<u8>,
        exchange_type: Vec<u8>,
        passive: bool,
        durable: bool,
        auto_delete: bool,
        internal: bool,
        nowait: bool,
        arguments: FieldTable,
    },
    ExchangeDeclareOk,
    ExchangeDelete { ticket: u16, exchange: Vec<u8>, if_unused: bool, nowait: bool },
    ExchangeDeleteOk,
    ExchangeBind {
        ticket: u16,
        destination: Vec<u8>,
        source: Vec<u8>,
        routing_key: Vec<u8>,
        nowait: bool,
        arguments: FieldTable,
    },
    ExchangeBindOk,
    ExchangeUnbind {
        ticket: u16,
        destination: Vec<u8>,
        source: Vec<u8>,
        routing_key: Vec<u8>,
        nowait: bool,
        arguments: FieldTable,
    },
    ExchangeUnbindOk,
    QueueDeclare {
        ticket: u16,
        queue: Vec<u8>,
        passive: bool,
        durable: bool,
        exclusive: bool,
        auto_delete: bool,
        nowait: bool,
        arguments: FieldTable,
    },
    QueueDeclareOk { queue: Vec<u8>, message_count: u32, consumer_count: u32 },
    QueueBind {
        ticket: u16,
        queue: Vec<u8>,
        exchange: Vec<u8>,
        routing_key: Vec<u8>,
        nowait: bool,
        arguments: FieldTable,
    },
    QueueBindOk,
    QueuePurge { ticket: u16, queue: Vec<u8>, nowait: bool },
    QueuePurgeOk { message_count: u32 },
    QueueDelete { ticket: u16, queue: Vec<u8>, if_unused: bool, if_empty: bool, nowait: bool },
    QueueDeleteOk { message_count: u32 },
    QueueUnbind {
        ticket: u16,
        queue: Vec<u8>,
        exchange: Vec<u8>,
        routing_key: Vec<u8>,
        arguments: FieldTable,
    },
    QueueUnbindOk,
    BasicQos { prefetch_size: u32, prefetch_count: u16, global: bool },
    BasicQosOk,
    BasicConsume {
        ticket: u16,
        queue: Vec<u8>,
        consumer_tag: Vec<u8>,
        no_local: bool,
        no_ack: bool,
        exclusive: bool,
        nowait: bool,
        arguments: FieldTable,
    },
    BasicConsumeOk { consumer_tag: Vec<u8> },
    BasicPublish {
        ticket: u16,
        exchange: Vec<u8>,
        routing_key: Vec<u8>,
        mandatory: bool,
        immediate: bool,
    },
    BasicReturn { reply_code: u16, reply_text: Vec<u8>, exchange: Vec<u8>, routing_key: Vec<u8> },
    BasicDeliver {
        consumer_tag: Vec<u8>,
        delivery_tag: u64,
        redelivered: bool,
        exchange: Vec<u8>,
        routing_key: Vec<u8>,
    },
    BasicGet { ticket: u16, queue: Vec<u8>, no_ack: bool },
    BasicGetOk {
        delivery_tag: u64,
        redelivered: bool,
        exchange: Vec<u8>,
        routing_key: Vec<u8>,
        message_count: u32,
    },
    BasicGetEmpty { cluster_id: Vec<u8> },
    BasicAck { delivery_tag: u64, multiple: bool },
    BasicReject { delivery_tag: u64, requeue: bool },
    BasicNack { delivery_tag: u64, multiple: bool, requeue: bool },
    ConfirmSelect { nowait: bool },
    ConfirmSelectOk,
}

pub enum MethodV {
    ConnectionStart {
        version_major: u8,
        version_minor: u8,
        server_properties: Seq<TableEntryV>,
        mechanisms: Seq<u8>,
        locales: Seq<u8>,
    },
    ConnectionStartOk {
        client_properties: Seq<TableEntryV>,
        mechanism: Seq<u8>,
        response: Seq<u8>,
        locale: Seq<u8>,
    },
    ConnectionTune { channel_max: u16, frame_max: u32, heartbeat: u16 },
    ConnectionTuneOk { channel_max: u16, frame_max: u32, heartbeat: u16 },
    ConnectionOpen { virtual_host: Seq<u8>, capabilities: Seq<u8>, insist: bool },
    ConnectionOpenOk { known_hosts: Seq<u8> },
    ConnectionClose { reply_code: u16, reply_text: Seq<u8>, class_id: u16, method_id: u16 },
    ConnectionCloseOk,
    ChannelOpen { out_of_band: Seq<u8> },
    ChannelOpenOk { channel_id: Seq<u8> },
    ChannelFlow { active: bool },
    ChannelFlowOk { active: bool },
    ChannelClose { reply_code: u16, reply_text: Seq<u8>, class_id: u16, method_id: u16 },
    ChannelCloseOk,
    AccessRequest {
        realm: Seq<u8>,
        exclusive: bool,
        passive: bool,
        active: bool,
        write: bool,
        read: bool,
    },
    AccessRequestOk { ticket: u16 },
    ExchangeDeclare {
        ticket: u16,
        exchange: Seq<u8>,
        exchange_type: Seq<u8>,
        passive: bool,
        durable: bool,
        auto_delete: bool,
        internal: bool,
        nowait: bool,
        arguments: Seq<TableEntryV>,
    },
    ExchangeDeclareOk,
    ExchangeDelete { ticket: u16, exchange: Seq<u8>, if_unused: bool, nowait: bool },
    ExchangeDeleteOk,
    ExchangeBind {
        ticket: u16,
        destination: Seq<u8>,
        source: Seq<u8>,
        routing_key: Seq<u8>,
        nowait: bool,
        arguments: Seq<TableEntryV>,
    },
    ExchangeBindOk,
    ExchangeUnbind {
        ticket: u16,
        destination: Seq<u8>,
        source: Seq<u8>,
        routing_key: Seq<u8>,
        nowait: bool,
        arguments: Seq<TableEntryV>,
    },
    ExchangeUnbindOk,
    QueueDeclare {
        ticket: u16,
        queue: Seq<u8>,
        passive: bool,
        durable: bool,
        exclusive: bool,
        auto_delete: bool,
        nowait: bool,
        arguments: Seq<TableEntryV>,
    },
    QueueDeclareOk { queue: Seq<u8>, message_count: u32, consumer_count: u32 },
    QueueBind {
        ticket: u16,
        queue: Seq<u8>,
        exchange: Seq<u8>,
        routing_key: Seq<u8>,
        nowait: bool,
        arguments: Seq<TableEntryV>,
    },
    QueueBindOk,
    QueuePurge { ticket: u16, queue: Seq<u8>, nowait: bool },
    QueuePurgeOk { message_count: u32 },
    QueueDelete { ticket: u16, queue: Seq<u8>, if_unused: bool, if_empty: bool, nowait: bool },
    QueueDeleteOk { message_count: u32 },
    QueueUnbind {
        ticket: u16,
        queue: Seq<u8>,
        exchange: Seq<u8>,
        routing_key: Seq<u8>,
        arguments: Seq<TableEntryV>,
    },
    QueueUnbindOk,
    BasicQos { prefetch_size: u32, prefetch_count: u16, global: bool },
    BasicQosOk,
    BasicConsume {
        ticket: u16,
        queue: Seq<u8>,
        consumer_tag: Seq<u8>,
        no_local: bool,
        no_ack: bool,
        exclusive: bool,
        nowait: bool,
        arguments: Seq<TableEntryV>,
    },
    BasicConsumeOk { consumer_tag: Seq<u8> },
    BasicPublish {
        ticket: u16,
        exchange: Seq<u8>,
        routing_key: Seq<u8>,
        mandatory: bool,
        immediate: bool,
    },
    BasicReturn { reply_code: u16, reply_text: Seq<u8>, exchange: Seq<u8>, routing_key: Seq<u8> },
    BasicDeliver {
        consumer_tag: Seq<u8>,
        delivery_tag: u64,
        redelivered: bool,
        exchange: Seq<u8>,
        routing_key: Seq<u8>,
    },
    BasicGet { ticket: u16, queue: Seq<u8>, no_ack: bool },
    BasicGetOk {
        delivery_tag: u64,
        redelivered: bool,
        exchange: Seq<u8>,
        routing_key: Seq<u8>,
        message_count: u32,
    },
    BasicGetEmpty { cluster_id: Seq<u8> },
    BasicAck { delivery_tag: u64, multiple: bool },
    BasicReject { delivery_tag: u64, requeue: bool },
    BasicNack { delivery_tag: u64, multiple: bool, requeue: bool },
    ConfirmSelect { nowait: bool },
    ConfirmSelectOk,
}

impl View for Method {
    type V = MethodV;

    open spec fn view(&self) -> MethodV {
        match self {
            Method::ConnectionStart {
                version_major, version_minor, server_properties, mechanisms, locales,
            } => MethodV::ConnectionStart {
                version_major: *version_major,
                version_minor: *version_minor,
                server_properties: table_v(server_properties@),
                mechanisms: mechanisms@,
                locales: locales@,
            },
            Method::ConnectionStartOk { client_properties, mechanism, response, locale } =>
                MethodV::ConnectionStartOk {
                    client_properties: table_v(client_properties@),
                    mechanism: mechanism@,
                    response: response@,
                    locale: locale@,
                },
            Method::ConnectionTune { channel_max, frame_max, heartbeat } =>
                MethodV::ConnectionTune {
                    channel_max: *channel_max,
                    frame_max: *frame_max,
                    heartbeat: *heartbeat,
                },
            Method::ConnectionTuneOk { channel_max, frame_max, heartbeat } =>
                MethodV::ConnectionTuneOk {
                    channel_max: *channel_max,
                    frame_max: *frame_max,
                    heartbeat: *heartbeat,
                },
            Method::ConnectionOpen { virtual_host, capabilities, insist } =>
                MethodV::ConnectionOpen {
                    virtual_host: virtual_host@,
                    capabilities: capabilities@,
                    insist: *insist,
                },
            Method::ConnectionOpenOk { known_hosts } =>
                MethodV::ConnectionOpenOk { known_hosts: known_hosts@ },
            Method::ConnectionClose { reply_code, reply_text, class_id, method_id } =>
                MethodV::ConnectionClose {
                    reply_code: *reply_code,
                    reply_text: reply_text@,
                    class_id: *class_id,
                    method_id: *method_id,
                },
            Method::ConnectionCloseOk => MethodV::ConnectionCloseOk,
            Method::ChannelOpen { out_of_band } =>
                MethodV::ChannelOpen { out_of_band: out_of_band@ },
            Method::ChannelOpenOk { channel_id } =>
                MethodV::ChannelOpenOk { channel_id: channel_id@ },
            Method::ChannelFlow { active } => MethodV::ChannelFlow { active: *active },
            Method::ChannelFlowOk { active } => MethodV::ChannelFlowOk { active: *active },
            Method::ChannelClose { reply_code, reply_text, class_id, method_id } =>
                MethodV::ChannelClose {
                    reply_code: *reply_code,
                    reply_text: reply_text@,
                    class_id: *class_id,
                    method_id: *method_id,
                },
            Method::ChannelCloseOk => MethodV::ChannelCloseOk,
            Method::AccessRequest { realm, exclusive, passive, active, write, read } =>
                MethodV::AccessRequest {
                    realm: realm@,
                    exclusive: *exclusive,
                    passive: *passive,
                    active: *active,
                    write: *write,
                    read: *read,
                },
            Method::AccessRequestOk { ticket } => MethodV::AccessRequestOk { ticket: *ticket },
            Method::ExchangeDeclare {
                ticket, exchange, exchange_type, passive, durable, auto_delete, internal,
                nowait, arguments,
            } => MethodV::ExchangeDeclare {
                ticket: *ticket,
                exchange: exchange@,
                exchange_type: exchange_type@,
                passive: *passive,
                durable: *durable,
                auto_delete: *auto_delete,
                internal: *internal,
                nowait: *nowait,
                arguments: table_v(arguments@),
            },
            Method::ExchangeDeclareOk => MethodV::ExchangeDeclareOk,
            Method::ExchangeDelete { ticket, exchange, if_unused, nowait } =>
                MethodV::ExchangeDelete {
                    ticket: *ticket,
                    exchange: exchange@,
                    if_unused: *if_unused,
                    nowait: *nowait,
                },
            Method::ExchangeDeleteOk => MethodV::ExchangeDeleteOk,
            Method::ExchangeBind { ticket, destination, source, routing_key, nowait, arguments } =>
                MethodV::ExchangeBind {
                    ticket: *ticket,
                    destination: destination@,
                    source: source@,
                    routing_key: routing_key@,
                    nowait: *nowait,
                    arguments: table_v(arguments@),
                },
            Method::ExchangeBindOk => MethodV::ExchangeBindOk,
            Method::ExchangeUnbind {
                ticket, destination, source, routing_key, nowait, arguments,
            } => MethodV::ExchangeUnbind {
                ticket: *ticket,
                destination: destination@,
                source: source@,
                routing_key: routing_key@,
                nowait: *nowait,
                arguments: table_v(arguments@),
            },
            Method::ExchangeUnbindOk => MethodV::ExchangeUnbindOk,
            Method::QueueDeclare {
                ticket, queue, passive, durable, exclusive, auto_delete, nowait, arguments,
            } => MethodV::QueueDeclare {
                ticket: *ticket,
                queue: queue@,
                passive: *passive,
                durable: *durable,
                exclusive: *exclusive,
                auto_delete: *auto_delete,
                nowait: *nowait,
                arguments: table_v(arguments@),
            },
            Method::QueueDeclareOk { queue, message_count, consumer_count } =>
                MethodV::QueueDeclareOk {
                    queue: queue@,
                    message_count: *message_count,
                    consumer_count: *consumer_count,
                },
            Method::QueueBind { ticket, queue, exchange, routing_key, nowait, arguments } =>
                MethodV::QueueBind {
                    ticket: *ticket,
                    queue: queue@,
                    exchange: exchange@,
                    routing_key: routing_key@,
                    nowait: *nowait,
                    arguments: table_v(arguments@),
                },
            Method::QueueBindOk => MethodV::QueueBindOk,
            Method::QueuePurge { ticket, queue, nowait } =>
                MethodV::QueuePurge { ticket: *ticket, queue: queue@, nowait: *nowait },
            Method::QueuePurgeOk { message_count } =>
                MethodV::QueuePurgeOk { message_count: *message_count },
            Method::QueueDelete { ticket, queue, if_unused, if_empty, nowait } =>
                MethodV::QueueDelete {
                    ticket: *ticket,
                    queue: queue@,
                    if_unused: *if_unused,
                    if_empty: *if_empty,
                    nowait: *nowait,
                },
            Method::QueueDeleteOk { message_count } =>
                MethodV::QueueDeleteOk { message_count: *message_count },
            Method::QueueUnbind { ticket, queue, exchange, routing_key, arguments } =>
                MethodV::QueueUnbind {
                    ticket: *ticket,
                    queue: queue@,
                    exchange: exchange@,
                    routing_key: routing_key@,
                    arguments: table_v(arguments@),
                },
            Method::QueueUnbindOk => MethodV::QueueUnbindOk,
            Method::BasicQos { prefetch_size, prefetch_count, global } =>
                MethodV::BasicQos {
                    prefetch_size: *prefetch_size,
                    prefetch_count: *prefetch_count,
                    global: *global,
                },
            Method::BasicQosOk => MethodV::BasicQosOk,
            Method::BasicConsume {
                ticket, queue, consumer_tag, no_local, no_ack, exclusive, nowait, arguments,
            } => MethodV::BasicConsume {
                ticket: *ticket,
                queue: queue@,
                consumer_tag: consumer_tag@,
                no_local: *no_local,
                no_ack: *no_ack,
                exclusive: *exclusive,
                nowait: *nowait,
                arguments: table_v(arguments@),
            },
            Method::BasicConsumeOk { consumer_tag } =>
                MethodV::BasicConsumeOk { consumer_tag: consumer_tag@ },
            Method::BasicPublish { ticket, exchange, routing_key, mandatory, immediate } =>
                MethodV::BasicPublish {
                    ticket: *ticket,
                    exchange: exchange@,
                    routing_key: routing_key@,
                    mandatory: *mandatory,
                    immediate: *immediate,
                },
            Method::BasicReturn { reply_code, reply_text, exchange, routing_key } =>
                MethodV::BasicReturn {
                    reply_code: *reply_code,
                    reply_text: reply_text@,
                    exchange: exchange@,
                    routing_key: routing_key@,
                },
            Method::BasicDeliver { consumer_tag, delivery_tag, redelivered, exchange, routing_key } =>
                MethodV::BasicDeliver {
                    consumer_tag: consumer_tag@,
                    delivery_tag: *delivery_tag,
                    redelivered: *redelivered,
                    exchange: exchange@,
                    routing_key: routing_key@,
                },
            Method::BasicGet { ticket, queue, no_ack } =>
                MethodV::BasicGet { ticket: *ticket, queue: queue@, no_ack: *no_ack },
            Method::BasicGetOk {
                delivery_tag, redelivered, exchange, routing_key, message_count,
            } => MethodV::BasicGetOk {
                delivery_tag: *delivery_tag,
                redelivered: *redelivered,
                exchange: exchange@,
                routing_key: routing_key@,
                message_count: *message_count,
            },
            Method::BasicGetEmpty { cluster_id } =>
                MethodV::BasicGetEmpty { cluster_id: cluster_id@ },
            Method::BasicAck { delivery_tag, multiple } =>
                MethodV::BasicAck { delivery_tag: *delivery_tag, multiple: *multiple },
            Method::BasicReject { delivery_tag, requeue } =>
                MethodV::BasicReject { delivery_tag: *delivery_tag, requeue: *requeue },
            Method::BasicNack { delivery_tag, multiple, requeue } =>
                MethodV::BasicNack {
                    delivery_tag: *delivery_tag,
                    multiple: *multiple,
                    requeue: *requeue,
                },
            Method::ConfirmSelect { nowait } => MethodV::ConfirmSelect { nowait: *nowait },
            Method::ConfirmSelectOk => MethodV::ConfirmSelectOk,
        }
    }
}

// ---------------------------------------------------------------------------
// Frames
// ---------------------------------------------------------------------------

/// The content header that precedes the body of a content-bearing message.
#[derive(Clone, Debug, PartialEq, Eq)]
pub struct ContentHeader {
    pub body_size: u64,
    pub properties: BasicProperties,
}

pub struct ContentHeaderV {
    pub body_size: u64,
    pub properties: PropsV,
}

impl View for ContentHeader {
    type V = ContentHeaderV;

    open spec fn view(&self) -> ContentHeaderV {
        ContentHeaderV { body_size: self.body_size, properties: self.properties@ }
    }
}

/// One AMQP frame.  `Header` carries the channel id, the class id, and the
/// content header; `Body` carries one fragment of a message payload.
#[derive(Clone, Debug, PartialEq, Eq)]
pub enum Frame {
    ProtocolHeader,
    Heartbeat(u16),
    Method(u16, Method),
    Header(u16, u16, ContentHeader),
    Body(u16, Vec<u8>),
}

pub enum FrameV {
    ProtocolHeader,
    Heartbeat(u16),
    Method(u16, MethodV),
    Header(u16, u16, ContentHeaderV),
    Body(u16, Seq<u8>),
}

impl View for Frame {
    type V = FrameV;

    open spec fn view(&self) -> FrameV {
        match self {
            Frame::ProtocolHeader => FrameV::ProtocolHeader,
            Frame::Heartbeat(ch) => FrameV::Heartbeat(*ch),
            Frame::Method(ch, m) => FrameV::Method(*ch, m@),
            Frame::Header(ch, cls, h) => FrameV::Header(*ch, *cls, h@),
            Frame::Body(ch, b) => FrameV::Body(*ch, b@),
        }
    }
}

} // verus!
