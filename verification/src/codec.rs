//! Specification of the AMQP 0-9-1 frame codec: the exact bytes every
//! well-formed frame serializes to (`frame_bytes`), the parser over arbitrary
//! byte sequences (`parse_frame`), and well-formedness of frames
//! (`frame_wf`).  The executable encoder and decoder are proved against these
//! functions, and the codec laws (round trip, fragmentation insensitivity)
//! are proved about them.

use vstd::prelude::*;
use crate::wire::{
    enc_u8, enc_u16, enc_u32, enc_u64, enc_shortstr, enc_longstr, bits_byte, be_u16, be_u32,
    p_u8, p_u16, p_u32, p_u64, p_shortstr, p_longstr,
};
use crate::frame::{FieldValueV, TableEntryV, PropsV, MethodV, ContentHeaderV, FrameV};

verus! {

// ---------------------------------------------------------------------------
// Field tables
// ---------------------------------------------------------------------------

pub open spec fn fv_bytes(v: FieldValueV) -> Seq<u8> {
    match v {
        FieldValueV::Boolean(b) => seq![0x74u8] + enc_u8(if b { 1u8 } else { 0u8 }),
        FieldValueV::LongInt(n) => seq![0x49u8] + enc_u32(n as u32),
        FieldValueV::LongString(s) => seq![0x53u8] + enc_longstr(s),
        FieldValueV::Table(c) => seq![0x46u8] + enc_longstr(c),
    }
}

pub open spec fn fv_wf(v: FieldValueV) -> bool {
    match v {
        FieldValueV::Boolean(_) => true,
        FieldValueV::LongInt(_) => true,
        FieldValueV::LongString(s) => s.len() < 0x1_0000_0000,
        FieldValueV::Table(c) => c.len() < 0x1_0000_0000,
    }
}

pub open spec fn entry_bytes(e: TableEntryV) -> Seq<u8> {
    enc_shortstr(e.key) + fv_bytes(e.value)
}

pub open spec fn entry_wf(e: TableEntryV) -> bool {
    e.key.len() <= 255 && fv_wf(e.value)
}

/// The wire content of a table, without its length prefix.
pub open spec fn table_content(t: Seq<TableEntryV>) -> Seq<u8>
    decreases t.len(),
{
    if t.len() == 0 {
        Seq::empty()
    } else {
        entry_bytes(t[0]) + table_content(t.skip(1))
    }
}

pub open spec fn table_wf(t: Seq<TableEntryV>) -> bool {
    (forall|i: int| 0 <= i < t.len() ==> entry_wf(#[trigger] t[i]))
        && table_content(t).len() < 0x1_0000_0000
}

pub open spec fn enc_table(t: Seq<TableEntryV>) -> Seq<u8> {
    enc_u32(table_content(t).len() as u32) + table_content(t)
}

pub open spec fn p_fv(a: Seq<u8>) -> Option<(FieldValueV, Seq<u8>)> {
    match p_u8(a) {
        None => None,
        Some((t, a)) => {
            if t == 0x74 {
                match p_u8(a) {
                    None => None,
                    Some((b, a)) => Some((FieldValueV::Boolean(b != 0), a)),
                }
            } else if t == 0x49 {
                match p_u32(a) {
                    None => None,
                    Some((n, a)) => Some((FieldValueV::LongInt(n as i32), a)),
                }
            } else if t == 0x53 {
                match p_longstr(a) {
                    None => None,
                    Some((s, a)) => Some((FieldValueV::LongString(s), a)),
                }
            } else if t == 0x46 {
                match p_longstr(a) {
                    None => None,
                    Some((c, a)) => Some((FieldValueV::Table(c), a)),
                }
            } else {
                None
            }
        },
    }
}

pub open spec fn p_entry(a: Seq<u8>) -> Option<(TableEntryV, Seq<u8>)> {
    match p_shortstr(a) {
        None => None,
        Some((k, a)) => match p_fv(a) {
            None => None,
            Some((v, a)) => Some((TableEntryV { key: k, value: v }, a)),
        },
    }
}

/// Parse a table's entire content; `None` unless the content is exactly a
/// sequence of entries.
pub open spec fn parse_entries(c: Seq<u8>) -> Option<Seq<TableEntryV>>
    decreases c.len(),
{
    if c.len() == 0 {
        Some(Seq::empty())
    } else {
        match p_entry(c) {
            None => None,
            Some((e, r)) => {
                if r.len() < c.len() {
                    match parse_entries(r) {
                        None => None,
                        Some(t) => Some(seq![e] + t),
                    }
                } else {
                    None
                }
            },
        }
    }
}

pub open spec fn p_table(a: Seq<u8>) -> Option<(Seq<TableEntryV>, Seq<u8>)> {
    match p_longstr(a) {
        None => None,
        Some((c, a)) => match parse_entries(c) {
            None => None,
            Some(t) => Some((t, a)),
        },
    }
}

// ---------------------------------------------------------------------------
// Basic properties
// ---------------------------------------------------------------------------

pub open spec fn opt_shortstr_bytes(o: Option<Seq<u8>>) -> Seq<u8> {
    match o {
        Some(s) => enc_shortstr(s),
        None => Seq::empty(),
    }
}

pub open spec fn opt_u8_bytes(o: Option<u8>) -> Seq<u8> {
    match o {
        Some(v) => enc_u8(v),
        None => Seq::empty(),
    }
}

pub open spec fn opt_u64_bytes(o: Option<u64>) -> Seq<u8> {
    match o {
        Some(v) => enc_u64(v),
        None => Seq::empty(),
    }
}

pub open spec fn opt_table_bytes(o: Option<Seq<TableEntryV>>) -> Seq<u8> {
    match o {
        Some(t) => enc_table(t),
        None => Seq::empty(),
    }
}

/// The first property-flag octet (bits 15..8 of the flag word).
pub open spec fn props_flags_hi(p: PropsV) -> u8 {
    bits_byte(
        p.expiration is Some,
        p.reply_to is Some,
        p.correlation_id is Some,
        p.priority is Some,
        p.delivery_mode is Some,
        p.headers is Some,
        p.content_encoding is Some,
        p.content_type is Some,
    )
}

/// The second property-flag octet (bits 7..0; bits 1 and 0 are always clear).
pub open spec fn props_flags_lo(p: PropsV) -> u8 {
    bits_byte(
        false,
        false,
        p.cluster_id is Some,
        p.app_id is Some,
        p.user_id is Some,
        p.message_type is Some,
        p.timestamp is Some,
        p.message_id is Some,
    )
}

/// The encoded fields governed by the first flag octet, in wire order.
pub open spec fn props_hi_bytes(p: PropsV) -> Seq<u8> {
    opt_shortstr_bytes(p.content_type) + opt_shortstr_bytes(p.content_encoding)
        + opt_table_bytes(p.headers) + opt_u8_bytes(p.delivery_mode)
        + opt_u8_bytes(p.priority) + opt_shortstr_bytes(p.correlation_id)
        + opt_shortstr_bytes(p.reply_to) + opt_shortstr_bytes(p.expiration)
}

/// The encoded fields governed by the second flag octet, in wire order.
pub open spec fn props_lo_bytes(p: PropsV) -> Seq<u8> {
    opt_shortstr_bytes(p.message_id) + opt_u64_bytes(p.timestamp)
        + opt_shortstr_bytes(p.message_type) + opt_shortstr_bytes(p.user_id)
        + opt_shortstr_bytes(p.app_id) + opt_shortstr_bytes(p.cluster_id)
}

pub open spec fn props_bytes(p: PropsV) -> Seq<u8> {
    enc_u8(props_flags_hi(p)) + enc_u8(props_flags_lo(p)) + props_hi_bytes(p)
        + props_lo_bytes(p)
}

pub open spec fn opt_shortstr_wf(o: Option<Seq<u8>>) -> bool {
    match o {
        Some(s) => s.len() <= 255,
        None => true,
    }
}

pub open spec fn props_wf(p: PropsV) -> bool {
    &&& opt_shortstr_wf(p.content_type)
    &&& opt_shortstr_wf(p.content_encoding)
    &&& match p.headers {
        Some(t) => table_wf(t),
        None => true,
    }
    &&& opt_shortstr_wf(p.correlation_id)
    &&& opt_shortstr_wf(p.reply_to)
    &&& opt_shortstr_wf(p.expiration)
    &&& opt_shortstr_wf(p.message_id)
    &&& opt_shortstr_wf(p.message_type)
    &&& opt_shortstr_wf(p.user_id)
    &&& opt_shortstr_wf(p.app_id)
    &&& opt_shortstr_wf(p.cluster_id)
}

pub open spec fn p_opt_shortstr(cond: bool, a: Seq<u8>) -> Option<(Option<Seq<u8>>, Seq<u8>)> {
    if cond {
        match p_shortstr(a) {
            None => None,
            Some((s, a)) => Some((Some(s), a)),
        }
    } else {
        Some((None, a))
    }
}

pub open spec fn p_opt_u8(cond: bool, a: Seq<u8>) -> Option<(Option<u8>, Seq<u8>)> {
    if cond {
        match p_u8(a) {
            None => None,
            Some((v, a)) => Some((Some(v), a)),
        }
    } else {
        Some((None, a))
    }
}

pub open spec fn p_opt_u64(cond: bool, a: Seq<u8>) -> Option<(Option<u64>, Seq<u8>)> {
    if cond {
        match p_u64(a) {
            None => None,
            Some((v, a)) => Some((Some(v), a)),
        }
    } else {
        Some((None, a))
    }
}

pub open spec fn p_opt_table(cond: bool, a: Seq<u8>) -> Option<(Option<Seq<TableEntryV>>, Seq<u8>)> {
    if cond {
        match p_table(a) {
            None => None,
            Some((t, a)) => Some((Some(t), a)),
        }
    } else {
        Some((None, a))
    }
}

/// The fields governed by the first flag octet, parsed.
pub struct PropsHi {
    pub content_type: Option<Seq<u8>>,
    pub content_encoding: Option<Seq<u8>>,
    pub headers: Option<Seq<TableEntryV>>,
    pub delivery_mode: Option<u8>,
    pub priority: Option<u8>,
    pub correlation_id: Option<Seq<u8>>,
    pub reply_to: Option<Seq<u8>>,
    pub expiration: Option<Seq<u8>>,
}

/// The fields governed by the second flag octet, parsed.
pub struct PropsLo {
    pub message_id: Option<Seq<u8>>,
    pub timestamp: Option<u64>,
    pub message_type: Option<Seq<u8>>,
    pub user_id: Option<Seq<u8>>,
    pub app_id: Option<Seq<u8>>,
    pub cluster_id: Option<Seq<u8>>,
}

pub open spec fn props_hi_of(p: PropsV) -> PropsHi {
    PropsHi {
        content_type: p.content_type,
        content_encoding: p.content_encoding,
        headers: p.headers,
        delivery_mode: p.delivery_mode,
        priority: p.priority,
        correlation_id: p.correlation_id,
        reply_to: p.reply_to,
        expiration: p.expiration,
    }
}

pub open spec fn props_lo_of(p: PropsV) -> PropsLo {
    PropsLo {
        message_id: p.message_id,
        timestamp: p.timestamp,
        message_type: p.message_type,
        user_id: p.user_id,
        app_id: p.app_id,
        cluster_id: p.cluster_id,
    }
}

pub open spec fn assemble_props(h: PropsHi, l: PropsLo) -> PropsV {
    PropsV {
        content_type: h.content_type,
        content_encoding: h.content_encoding,
        headers: h.headers,
        delivery_mode: h.delivery_mode,
        priority: h.priority,
        correlation_id: h.correlation_id,
        reply_to: h.reply_to,
        expiration: h.expiration,
        message_id: l.message_id,
        timestamp: l.timestamp,
        message_type: l.message_type,
        user_id: l.user_id,
        app_id: l.app_id,
        cluster_id: l.cluster_id,
    }
}

pub open spec fn p_props_hi_a(
    hi: u8,
    a: Seq<u8>,
) -> Option<((Option<Seq<u8>>, Option<Seq<u8>>, Option<Seq<TableEntryV>>, Option<u8>), Seq<u8>)> {
    match p_opt_shortstr((hi & 128) != 0, a) {
        None => None,
        Some((content_type, a)) => match p_opt_shortstr((hi & 64) != 0, a) {
            None => None,
            Some((content_encoding, a)) => match p_opt_table((hi & 32) != 0, a) {
                None => None,
                Some((headers, a)) => match p_opt_u8((hi & 16) != 0, a) {
                    None => None,
                    Some((delivery_mode, a)) => Some((
                        (content_type, content_encoding, headers, delivery_mode),
                        a,
                    )),
                },
            },
        },
    }
}

pub open spec fn p_props_hi_b(
    hi: u8,
    a: Seq<u8>,
) -> Option<((Option<u8>, Option<Seq<u8>>, Option<Seq<u8>>, Option<Seq<u8>>), Seq<u8>)> {
    match p_opt_u8((hi & 8) != 0, a) {
        None => None,
        Some((priority, a)) => match p_opt_shortstr((hi & 4) != 0, a) {
            None => None,
            Some((correlation_id, a)) => match p_opt_shortstr((hi & 2) != 0, a) {
                None => None,
                Some((reply_to, a)) => match p_opt_shortstr((hi & 1) != 0, a) {
                    None => None,
                    Some((expiration, a)) => Some((
                        (priority, correlation_id, reply_to, expiration),
                        a,
                    )),
                },
            },
        },
    }
}

pub open spec fn p_props_hi(hi: u8, a: Seq<u8>) -> Option<(PropsHi, Seq<u8>)> {
    match p_props_hi_a(hi, a) {
        None => None,
        Some(((content_type, content_encoding, headers, delivery_mode), a)) =>
            match p_props_hi_b(hi, a) {
                None => None,
                Some(((priority, correlation_id, reply_to, expiration), a)) => Some((
                    PropsHi {
                        content_type,
                        content_encoding,
                        headers,
                        delivery_mode,
                        priority,
                        correlation_id,
                        reply_to,
                        expiration,
                    },
                    a,
                )),
            },
    }
}

pub open spec fn p_props_lo_a(
    lo: u8,
    a: Seq<u8>,
) -> Option<((Option<Seq<u8>>, Option<u64>, Option<Seq<u8>>), Seq<u8>)> {
    match p_opt_shortstr((lo & 128) != 0, a) {
        None => None,
        Some((message_id, a)) => match p_opt_u64((lo & 64) != 0, a) {
            None => None,
            Some((timestamp, a)) => match p_opt_shortstr((lo & 32) != 0, a) {
                None => None,
                Some((message_type, a)) => Some(((message_id, timestamp, message_type), a)),
            },
        },
    }
}

pub open spec fn p_props_lo_b(
    lo: u8,
    a: Seq<u8>,
) -> Option<((Option<Seq<u8>>, Option<Seq<u8>>, Option<Seq<u8>>), Seq<u8>)> {
    match p_opt_shortstr((lo & 16) != 0, a) {
        None => None,
        Some((user_id, a)) => match p_opt_shortstr((lo & 8) != 0, a) {
            None => None,
            Some((app_id, a)) => match p_opt_shortstr((lo & 4) != 0, a) {
                None => None,
                Some((cluster_id, a)) => Some(((user_id, app_id, cluster_id), a)),
            },
        },
    }
}

pub open spec fn p_props_lo(lo: u8, a: Seq<u8>) -> Option<(PropsLo, Seq<u8>)> {
    match p_props_lo_a(lo, a) {
        None => None,
        Some(((message_id, timestamp, message_type), a)) => match p_props_lo_b(lo, a) {
            None => None,
            Some(((user_id, app_id, cluster_id), a)) => Some((
                PropsLo { message_id, timestamp, message_type, user_id, app_id, cluster_id },
                a,
            )),
        },
    }
}

pub open spec fn p_props(a: Seq<u8>) -> Option<(PropsV, Seq<u8>)> {
    match p_u8(a) {
        None => None,
        Some((hi, a)) => match p_u8(a) {
            None => None,
            Some((lo, a)) => {
                if lo & 3u8 != 0 {
                    None
                } else {
                    match p_props_hi(hi, a) {
                        None => None,
                        Some((h, a)) => match p_props_lo(lo, a) {
                            None => None,
                            Some((l, a)) => Some((assemble_props(h, l), a)),
                        },
                    }
                }
            },
        },
    }
}

// ---------------------------------------------------------------------------
// Method identities and argument encodings
// ---------------------------------------------------------------------------

/// The (class id, method id) pair of a method.
pub open spec fn method_cm(m: MethodV) -> (u16, u16) {
    match m {
        MethodV::ConnectionStart { .. } => (10, 10),
        MethodV::ConnectionStartOk { .. } => (10, 11),
        MethodV::ConnectionTune { .. } => (10, 30),
        MethodV::ConnectionTuneOk { .. } => (10, 31),
        MethodV::ConnectionOpen { .. } => (10, 40),
        MethodV::ConnectionOpenOk { .. } => (10, 41),
        MethodV::ConnectionClose { .. } => (10, 50),
        MethodV::ConnectionCloseOk => (10, 51),
        MethodV::ChannelOpen { .. } => (20, 10),
        MethodV::ChannelOpenOk { .. } => (20, 11),
        MethodV::ChannelFlow { .. } => (20, 20),
        MethodV::ChannelFlowOk { .. } => (20, 21),
        MethodV::ChannelClose { .. } => (20, 40),
        MethodV::ChannelCloseOk => (20, 41),
        MethodV::AccessRequest { .. } => (30, 10),
        MethodV::AccessRequestOk { .. } => (30, 11),
        MethodV::ExchangeDeclare { .. } => (40, 10),
        MethodV::ExchangeDeclareOk => (40, 11),
        MethodV::ExchangeDelete { .. } => (40, 20),
        MethodV::ExchangeDeleteOk => (40, 21),
        MethodV::ExchangeBind { .. } => (40, 30),
        MethodV::ExchangeBindOk => (40, 31),
        MethodV::ExchangeUnbind { .. } => (40, 40),
        MethodV::ExchangeUnbindOk => (40, 51),
        MethodV::QueueDeclare { .. } => (50, 10),
        MethodV::QueueDeclareOk { .. } => (50, 11),
        MethodV::QueueBind { .. } => (50, 20),
        MethodV::QueueBindOk => (50, 21),
        MethodV::QueuePurge { .. } => (50, 30),
        MethodV::QueuePurgeOk { .. } => (50, 31),
        MethodV::QueueDelete { .. } => (50, 40),
        MethodV::QueueDeleteOk { .. } => (50, 41),
        MethodV::QueueUnbind { .. } => (50, 50),
        MethodV::QueueUnbindOk => (50, 51),
        MethodV::BasicQos { .. } => (60, 10),
        MethodV::BasicQosOk => (60, 11),
        MethodV::BasicConsume { .. } => (60, 20),
        MethodV::BasicConsumeOk { .. } => (60, 21),
        MethodV::BasicPublish { .. } => (60, 40),
        MethodV::BasicReturn { .. } => (60, 50),
        MethodV::BasicDeliver { .. } => (60, 60),
        MethodV::BasicGet { .. } => (60, 70),
        MethodV::BasicGetOk { .. } => (60, 71),
        MethodV::BasicGetEmpty { .. } => (60, 72),
        MethodV::BasicAck { .. } => (60, 80),
        MethodV::BasicReject { .. } => (60, 90),
        MethodV::BasicNack { .. } => (60, 120),
        MethodV::ConfirmSelect { .. } => (85, 10),
        MethodV::ConfirmSelectOk => (85, 11),
    }
}

/// The encoded method arguments, after the class and method ids.
pub open spec fn args_bytes(m: MethodV) -> Seq<u8> {
    match m {
        MethodV::ConnectionStart {
            version_major, version_minor, server_properties, mechanisms, locales,
        } => enc_u8(version_major) + enc_u8(version_minor) + enc_table(server_properties)
            + enc_longstr(mechanisms) + enc_longstr(locales),
        MethodV::ConnectionStartOk { client_properties, mechanism, response, locale } =>
            enc_table(client_properties) + enc_shortstr(mechanism) + enc_longstr(response)
                + enc_shortstr(locale),
        MethodV::ConnectionTune { channel_max, frame_max, heartbeat } =>
            enc_u16(channel_max) + enc_u32(frame_max) + enc_u16(heartbeat),
        MethodV::ConnectionTuneOk { channel_max, frame_max, heartbeat } =>
            enc_u16(channel_max) + enc_u32(frame_max) + enc_u16(heartbeat),
        MethodV::ConnectionOpen { virtual_host, capabilities, insist } =>
            enc_shortstr(virtual_host) + enc_shortstr(capabilities)
                + enc_u8(bits_byte(insist, false, false, false, false, false, false, false)),
        MethodV::ConnectionOpenOk { known_hosts } => enc_shortstr(known_hosts),
        MethodV::ConnectionClose { reply_code, reply_text, class_id, method_id } =>
            enc_u16(reply_code) + enc_shortstr(reply_text) + enc_u16(class_id)
                + enc_u16(method_id),
        MethodV::ConnectionCloseOk => Seq::empty(),
        MethodV::ChannelOpen { out_of_band } => enc_shortstr(out_of_band),
        MethodV::ChannelOpenOk { channel_id } => enc_longstr(channel_id),
        MethodV::ChannelFlow { active } =>
            enc_u8(bits_byte(active, false, false, false, false, false, false, false)),
        MethodV::ChannelFlowOk { active } =>
            enc_u8(bits_byte(active, false, false, false, false, false, false, false)),
        MethodV::ChannelClose { reply_code, reply_text, class_id, method_id } =>
            enc_u16(reply_code) + enc_shortstr(reply_text) + enc_u16(class_id)
                + enc_u16(method_id),
        MethodV::ChannelCloseOk => Seq::empty(),
        MethodV::AccessRequest { realm, exclusive, passive, active, write, read } =>
            enc_shortstr(realm)
                + enc_u8(bits_byte(exclusive, passive, active, write, read, false, false, false)),
        MethodV::AccessRequestOk { ticket } => enc_u16(ticket),
        MethodV::ExchangeDeclare {
            ticket, exchange, exchange_type, passive, durable, auto_delete, internal, nowait,
            arguments,
        } => enc_u16(ticket) + enc_shortstr(exchange) + enc_shortstr(exchange_type)
            + enc_u8(bits_byte(passive, durable, auto_delete, internal, nowait, false, false, false))
            + enc_table(arguments),
        MethodV::ExchangeDeclareOk => Seq::empty(),
        MethodV::ExchangeDelete { ticket, exchange, if_unused, nowait } =>
            enc_u16(ticket) + enc_shortstr(exchange)
                + enc_u8(bits_byte(if_unused, nowait, false, false, false, false, false, false)),
        MethodV::ExchangeDeleteOk => Seq::empty(),
        MethodV::ExchangeBind { ticket, destination, source, routing_key, nowait, arguments } =>
            enc_u16(ticket) + enc_shortstr(destination) + enc_shortstr(source)
                + enc_shortstr(routing_key)
                + enc_u8(bits_byte(nowait, false, false, false, false, false, false, false))
                + enc_table(arguments),
        MethodV::ExchangeBindOk => Seq::empty(),
        MethodV::ExchangeUnbind { ticket, destination, source, routing_key, nowait, arguments } =>
            enc_u16(ticket) + enc_shortstr(destination) + enc_shortstr(source)
                + enc_shortstr(routing_key)
                + enc_u8(bits_byte(nowait, false, false, false, false, false, false, false))
                + enc_table(arguments),
        MethodV::ExchangeUnbindOk => Seq::empty(),
        MethodV::QueueDeclare {
            ticket, queue, passive, durable, exclusive, auto_delete, nowait, arguments,
        } => enc_u16(ticket) + enc_shortstr(queue)
            + enc_u8(bits_byte(passive, durable, exclusive, auto_delete, nowait, false, false, false))
            + enc_table(arguments),
        MethodV::QueueDeclareOk { queue, message_count, consumer_count } =>
            enc_shortstr(queue) + enc_u32(message_count) + enc_u32(consumer_count),
        MethodV::QueueBind { ticket, queue, exchange, routing_key, nowait, arguments } =>
            enc_u16(ticket) + enc_shortstr(queue) + enc_shortstr(exchange)
                + enc_shortstr(routing_key)
                + enc_u8(bits_byte(nowait, false, false, false, false, false, false, false))
                + enc_table(arguments),
        MethodV::QueueBindOk => Seq::empty(),
        MethodV::QueuePurge { ticket, queue, nowait } =>
            enc_u16(ticket) + enc_shortstr(queue)
                + enc_u8(bits_byte(nowait, false, false, false, false, false, false, false)),
        MethodV::QueuePurgeOk { message_count } => enc_u32(message_count),
        MethodV::QueueDelete { ticket, queue, if_unused, if_empty, nowait } =>
            enc_u16(ticket) + enc_shortstr(queue)
                + enc_u8(bits_byte(if_unused, if_empty, nowait, false, false, false, false, false)),
        MethodV::QueueDeleteOk { message_count } => enc_u32(message_count),
        MethodV::QueueUnbind { ticket, queue, exchange, routing_key, arguments } =>
            enc_u16(ticket) + enc_shortstr(queue) + enc_shortstr(exchange)
                + enc_shortstr(routing_key) + enc_table(arguments),
        MethodV::QueueUnbindOk => Seq::empty(),
        MethodV::BasicQos { prefetch_size, prefetch_count, global } =>
            enc_u32(prefetch_size) + enc_u16(prefetch_count)
                + enc_u8(bits_byte(global, false, false, false, false, false, false, false)),
        MethodV::BasicQosOk => Seq::empty(),
        MethodV::BasicConsume {
            ticket, queue, consumer_tag, no_local, no_ack, exclusive, nowait, arguments,
        } => enc_u16(ticket) + enc_shortstr(queue) + enc_shortstr(consumer_tag)
            + enc_u8(bits_byte(no_local, no_ack, exclusive, nowait, false, false, false, false))
            + enc_table(arguments),
        MethodV::BasicConsumeOk { consumer_tag } => enc_shortstr(consumer_tag),
        MethodV::BasicPublish { ticket, exchange, routing_key, mandatory, immediate } =>
            enc_u16(ticket) + enc_shortstr(exchange) + enc_shortstr(routing_key)
                + enc_u8(bits_byte(mandatory, immediate, false, false, false, false, false, false)),
        MethodV::BasicReturn { reply_code, reply_text, exchange, routing_key } =>
            enc_u16(reply_code) + enc_shortstr(reply_text) + enc_shortstr(exchange)
                + enc_shortstr(routing_key),
        MethodV::BasicDeliver { consumer_tag, delivery_tag, redelivered, exchange, routing_key } =>
            enc_shortstr(consumer_tag) + enc_u64(delivery_tag)
                + enc_u8(bits_byte(redelivered, false, false, false, false, false, false, false))
                + enc_shortstr(exchange) + enc_shortstr(routing_key),
        MethodV::BasicGet { ticket, queue, no_ack } =>
            enc_u16(ticket) + enc_shortstr(queue)
                + enc_u8(bits_byte(no_ack, false, false, false, false, false, false, false)),
        MethodV::BasicGetOk { delivery_tag, redelivered, exchange, routing_key, message_count } =>
            enc_u64(delivery_tag)
                + enc_u8(bits_byte(redelivered, false, false, false, false, false, false, false))
                + enc_shortstr(exchange) + enc_shortstr(routing_key) + enc_u32(message_count),
        MethodV::BasicGetEmpty { cluster_id } => enc_shortstr(cluster_id),
        MethodV::BasicAck { delivery_tag, multiple } =>
            enc_u64(delivery_tag)
                + enc_u8(bits_byte(multiple, false, false, false, false, false, false, false)),
        MethodV::BasicReject { delivery_tag, requeue } =>
            enc_u64(delivery_tag)
                + enc_u8(bits_byte(requeue, false, false, false, false, false, false, false)),
        MethodV::BasicNack { delivery_tag, multiple, requeue } =>
            enc_u64(delivery_tag)
                + enc_u8(bits_byte(multiple, requeue, false, false, false, false, false, false)),
        MethodV::ConfirmSelect { nowait } =>
            enc_u8(bits_byte(nowait, false, false, false, false, false, false, false)),
        MethodV::ConfirmSelectOk => Seq::empty(),
    }
}

/// Per-field well-formedness of a method's arguments.
pub open spec fn method_wf(m: MethodV) -> bool {
    match m {
        MethodV::ConnectionStart { server_properties, mechanisms, locales, .. } =>
            table_wf(server_properties) && mechanisms.len() < 0x1_0000_0000
                && locales.len() < 0x1_0000_0000,
        MethodV::ConnectionStartOk { client_properties, mechanism, response, locale } =>
            table_wf(client_properties) && mechanism.len() <= 255
                && response.len() < 0x1_0000_0000 && locale.len() <= 255,
        MethodV::ConnectionTune { .. } => true,
        MethodV::ConnectionTuneOk { .. } => true,
        MethodV::ConnectionOpen { virtual_host, capabilities, .. } =>
            virtual_host.len() <= 255 && capabilities.len() <= 255,
        MethodV::ConnectionOpenOk { known_hosts } => known_hosts.len() <= 255,
        MethodV::ConnectionClose { reply_text, .. } => reply_text.len() <= 255,
        MethodV::ConnectionCloseOk => true,
        MethodV::ChannelOpen { out_of_band } => out_of_band.len() <= 255,
        MethodV::ChannelOpenOk { channel_id } => channel_id.len() < 0x1_0000_0000,
        MethodV::ChannelFlow { .. } => true,
        MethodV::ChannelFlowOk { .. } => true,
        MethodV::ChannelClose { reply_text, .. } => reply_text.len() <= 255,
        MethodV::ChannelCloseOk => true,
        MethodV::AccessRequest { realm, .. } => realm.len() <= 255,
        MethodV::AccessRequestOk { .. } => true,
        MethodV::ExchangeDeclare { exchange, exchange_type, arguments, .. } =>
            exchange.len() <= 255 && exchange_type.len() <= 255 && table_wf(arguments),
        MethodV::ExchangeDeclareOk => true,
        MethodV::ExchangeDelete { exchange, .. } => exchange.len() <= 255,
        MethodV::ExchangeDeleteOk => true,
        MethodV::ExchangeBind { destination, source, routing_key, arguments, .. } =>
            destination.len() <= 255 && source.len() <= 255 && routing_key.len() <= 255
                && table_wf(arguments),
        MethodV::ExchangeBindOk => true,
        MethodV::ExchangeUnbind { destination, source, routing_key, arguments, .. } =>
            destination.len() <= 255 && source.len() <= 255 && routing_key.len() <= 255
                && table_wf(arguments),
        MethodV::ExchangeUnbindOk => true,
        MethodV::QueueDeclare { queue, arguments, .. } =>
            queue.len() <= 255 && table_wf(arguments),
        MethodV::QueueDeclareOk { queue, .. } => queue.len() <= 255,
        MethodV::QueueBind { queue, exchange, routing_key, arguments, .. } =>
            queue.len() <= 255 && exchange.len() <= 255 && routing_key.len() <= 255
                && table_wf(arguments),
        MethodV::QueueBindOk => true,
        MethodV::QueuePurge { queue, .. } => queue.len() <= 255,
        MethodV::QueuePurgeOk { .. } => true,
        MethodV::QueueDelete { queue, .. } => queue.len() <= 255,
        MethodV::QueueDeleteOk { .. } => true,
        MethodV::QueueUnbind { queue, exchange, routing_key, arguments, .. } =>
            queue.len() <= 255 && exchange.len() <= 255 && routing_key.len() <= 255
                && table_wf(arguments),
        MethodV::QueueUnbindOk => true,
        MethodV::BasicQos { .. } => true,
        MethodV::BasicQosOk => true,
        MethodV::BasicConsume { queue, consumer_tag, arguments, .. } =>
            queue.len() <= 255 && consumer_tag.len() <= 255 && table_wf(arguments),
        MethodV::BasicConsumeOk { consumer_tag } => consumer_tag.len() <= 255,
        MethodV::BasicPublish { exchange, routing_key, .. } =>
            exchange.len() <= 255 && routing_key.len() <= 255,
        MethodV::BasicReturn { reply_text, exchange, routing_key, .. } =>
            reply_text.len() <= 255 && exchange.len() <= 255 && routing_key.len() <= 255,
        MethodV::BasicDeliver { consumer_tag, exchange, routing_key, .. } =>
            consumer_tag.len() <= 255 && exchange.len() <= 255 && routing_key.len() <= 255,
        MethodV::BasicGet { queue, .. } => queue.len() <= 255,
        MethodV::BasicGetOk { exchange, routing_key, .. } =>
            exchange.len() <= 255 && routing_key.len() <= 255,
        MethodV::BasicGetEmpty { cluster_id } => cluster_id.len() <= 255,
        MethodV::BasicAck { .. } => true,
        MethodV::BasicReject { .. } => true,
        MethodV::BasicNack { .. } => true,
        MethodV::ConfirmSelect { .. } => true,
        MethodV::ConfirmSelectOk => true,
    }
}

// ---------------------------------------------------------------------------
// Frame payloads, frame bytes, well-formedness
// ---------------------------------------------------------------------------

pub open spec fn method_payload(m: MethodV) -> Seq<u8> {
    enc_u16(method_cm(m).0) + enc_u16(method_cm(m).1) + args_bytes(m)
}

pub open spec fn header_payload(class_id: u16, h: ContentHeaderV) -> Seq<u8> {
    enc_u16(class_id) + enc_u16(0) + enc_u64(h.body_size) + props_bytes(h.properties)
}

pub open spec fn protocol_header_bytes() -> Seq<u8> {
    seq![65u8, 77u8, 81u8, 80u8, 0u8, 0u8, 9u8, 1u8]
}

/// The payload carried between a frame's 7-byte prologue and its end octet.
pub open spec fn frame_payload(f: FrameV) -> Seq<u8> {
    match f {
        FrameV::ProtocolHeader => Seq::empty(),
        FrameV::Heartbeat(_) => Seq::empty(),
        FrameV::Method(_, m) => method_payload(m),
        FrameV::Header(_, class_id, h) => header_payload(class_id, h),
        FrameV::Body(_, b) => b,
    }
}

pub open spec fn frame_type(f: FrameV) -> u8 {
    match f {
        FrameV::ProtocolHeader => 65,
        FrameV::Heartbeat(_) => 8,
        FrameV::Method(_, _) => 1,
        FrameV::Header(_, _, _) => 2,
        FrameV::Body(_, _) => 3,
    }
}

pub open spec fn frame_channel(f: FrameV) -> u16 {
    match f {
        FrameV::ProtocolHeader => 0,
        FrameV::Heartbeat(ch) => ch,
        FrameV::Method(ch, _) => ch,
        FrameV::Header(ch, _, _) => ch,
        FrameV::Body(ch, _) => ch,
    }
}

/// The exact wire bytes of a frame.
pub open spec fn frame_bytes(f: FrameV) -> Seq<u8> {
    match f {
        FrameV::ProtocolHeader => protocol_header_bytes(),
        _ => seq![frame_type(f)] + enc_u16(frame_channel(f))
            + enc_u32(frame_payload(f).len() as u32) + frame_payload(f) + seq![0xCEu8],
    }
}

pub open spec fn frame_wf(f: FrameV) -> bool {
    frame_payload(f).len() < 0x1_0000_0000 && match f {
        FrameV::ProtocolHeader => true,
        FrameV::Heartbeat(_) => true,
        FrameV::Method(_, m) => method_wf(m),
        FrameV::Header(_, _, h) => props_wf(h.properties),
        FrameV::Body(_, _) => true,
    }
}

// ---------------------------------------------------------------------------
// The frame parser
// ---------------------------------------------------------------------------

pub enum FrameParse {
    /// Too few bytes for a whole frame; nothing is consumed.
    Incomplete,
    /// Structurally invalid bytes.
    Malformed,
    /// One whole frame, and how many bytes it occupied.
    Parsed(FrameV, nat),
}

pub open spec fn parse_method_payload(p: Seq<u8>) -> Option<MethodV> {
    match p_u16(p) {
        None => None,
        Some((cls, p)) => match p_u16(p) {
            None => None,
            Some((mid, p)) => match parse_args(cls, mid, p) {
                None => None,
                Some((m, rest)) => if rest.len() == 0 {
                    Some(m)
                } else {
                    None
                },
            },
        },
    }
}

pub open spec fn parse_header_payload(p: Seq<u8>) -> Option<(u16, ContentHeaderV)> {
    match p_u16(p) {
        None => None,
        Some((cls, p)) => match p_u16(p) {
            None => None,
            Some((weight, p)) => {
                if weight != 0 {
                    None
                } else {
                    match p_u64(p) {
                        None => None,
                        Some((body_size, p)) => match p_props(p) {
                            None => None,
                            Some((props, rest)) => if rest.len() == 0 {
                                Some((cls, ContentHeaderV { body_size, properties: props }))
                            } else {
                                None
                            },
                        },
                    }
                }
            },
        },
    }
}

/// Parse the 8-byte protocol greeting, byte by byte so that a mismatch is
/// reported as soon as the offending byte is present.
pub open spec fn parse_protocol_header(b: Seq<u8>) -> FrameParse {
    if exists|i: int|
        0 <= i < b.len() && i < 8 && b[i] != protocol_header_bytes()[i] {
        FrameParse::Malformed
    } else if b.len() < 8 {
        FrameParse::Incomplete
    } else {
        FrameParse::Parsed(FrameV::ProtocolHeader, 8)
    }
}

/// Parse one frame from the front of `b`.
pub open spec fn parse_frame(b: Seq<u8>) -> FrameParse {
    if b.len() == 0 {
        FrameParse::Incomplete
    } else if b[0] == 65 {
        parse_protocol_header(b)
    } else if b[0] == 1 || b[0] == 2 || b[0] == 3 || b[0] == 8 {
        if b.len() < 7 {
            FrameParse::Incomplete
        } else {
            let ch = be_u16(b[1], b[2]);
            let size = be_u32(b[3], b[4], b[5], b[6]) as nat;
            let total = 8 + size;
            if b.len() < total {
                FrameParse::Incomplete
            } else if b[total - 1] != 0xCE {
                FrameParse::Malformed
            } else {
                let payload = b.subrange(7, 7 + size as int);
                if b[0] == 8 {
                    if size == 0 {
                        FrameParse::Parsed(FrameV::Heartbeat(ch), total)
                    } else {
                        FrameParse::Malformed
                    }
                } else if b[0] == 3 {
                    FrameParse::Parsed(FrameV::Body(ch, payload), total)
                } else if b[0] == 1 {
                    match parse_method_payload(payload) {
                        Some(m) => FrameParse::Parsed(FrameV::Method(ch, m), total),
                        None => FrameParse::Malformed,
                    }
                } else {
                    match parse_header_payload(payload) {
                        Some((cls, h)) => FrameParse::Parsed(FrameV::Header(ch, cls, h), total),
                        None => FrameParse::Malformed,
                    }
                }
            }
        }
    } else {
        FrameParse::Malformed
    }
}

// ---------------------------------------------------------------------------
// Per-method argument parsers
//
// Each parser peels its method's arguments from the front of `a`.  Methods
// with more than four fields are split into a prefix stage so that no single
// function nests deeply.
// ---------------------------------------------------------------------------

pub open spec fn pm_connection_start_a(
    a: Seq<u8>,
) -> Option<((u8, u8, Seq<TableEntryV>, Seq<u8>), Seq<u8>)> {
    match p_u8(a) {
        None => None,
        Some((version_major, a)) => match p_u8(a) {
            None => None,
            Some((version_minor, a)) => match p_table(a) {
                None => None,
                Some((server_properties, a)) => match p_longstr(a) {
                    None => None,
                    Some((mechanisms, a)) => Some((
                        (version_major, version_minor, server_properties, mechanisms),
                        a,
                    )),
                },
            },
        },
    }
}

pub open spec fn pm_connection_start(a: Seq<u8>) -> Option<(MethodV, Seq<u8>)> {
    match pm_connection_start_a(a) {
        None => None,
        Some(((version_major, version_minor, server_properties, mechanisms), a)) =>
            match p_longstr(a) {
                None => None,
                Some((locales, a)) => Some((
                    MethodV::ConnectionStart {
                        version_major, version_minor, server_properties, mechanisms, locales,
                    },
                    a,
                )),
            },
    }
}

pub open spec fn pm_connection_start_ok(a: Seq<u8>) -> Option<(MethodV, Seq<u8>)> {
    match p_table(a) {
        None => None,
        Some((client_properties, a)) => match p_shortstr(a) {
            None => None,
            Some((mechanism, a)) => match p_longstr(a) {
                None => None,
                Some((response, a)) => match p_shortstr(a) {
                    None => None,
                    Some((locale, a)) => Some((
                        MethodV::ConnectionStartOk { client_properties, mechanism, response, locale },
                        a,
                    )),
                },
            },
        },
    }
}

pub open spec fn pm_connection_tune(a: Seq<u8>) -> Option<(MethodV, Seq<u8>)> {
    match p_u16(a) {
        None => None,
        Some((channel_max, a)) => match p_u32(a) {
            None => None,
            Some((frame_max, a)) => match p_u16(a) {
                None => None,
                Some((heartbeat, a)) => Some((
                    MethodV::ConnectionTune { channel_max, frame_max, heartbeat },
                    a,
                )),
            },
        },
    }
}

pub open spec fn pm_connection_tune_ok(a: Seq<u8>) -> Option<(MethodV, Seq<u8>)> {
    match p_u16(a) {
        None => None,
        Some((channel_max, a)) => match p_u32(a) {
            None => None,
            Some((frame_max, a)) => match p_u16(a) {
                None => None,
                Some((heartbeat, a)) => Some((
                    MethodV::ConnectionTuneOk { channel_max, frame_max, heartbeat },
                    a,
                )),
            },
        },
    }
}

pub open spec fn pm_connection_open(a: Seq<u8>) -> Option<(MethodV, Seq<u8>)> {
    match p_shortstr(a) {
        None => None,
        Some((virtual_host, a)) => match p_shortstr(a) {
            None => None,
            Some((capabilities, a)) => match p_u8(a) {
                None => None,
                Some((fl, a)) => if fl & 0xFE != 0 {
                    None
                } else {
                    Some((
                        MethodV::ConnectionOpen { virtual_host, capabilities, insist: (fl & 1) != 0 },
                        a,
                    ))
                },
            },
        },
    }
}

pub open spec fn pm_connection_open_ok(a: Seq<u8>) -> Option<(MethodV, Seq<u8>)> {
    match p_shortstr(a) {
        None => None,
        Some((known_hosts, a)) => Some((MethodV::ConnectionOpenOk { known_hosts }, a)),
    }
}

pub open spec fn pm_connection_close(a: Seq<u8>) -> Option<(MethodV, Seq<u8>)> {
    match p_u16(a) {
        None => None,
        Some((reply_code, a)) => match p_shortstr(a) {
            None => None,
            Some((reply_text, a)) => match p_u16(a) {
                None => None,
                Some((class_id, a)) => match p_u16(a) {
                    None => None,
                    Some((method_id, a)) => Some((
                        MethodV::ConnectionClose { reply_code, reply_text, class_id, method_id },
                        a,
                    )),
                },
            },
        },
    }
}

pub open spec fn pm_channel_open(a: Seq<u8>) -> Option<(MethodV, Seq<u8>)> {
    match p_shortstr(a) {
        None => None,
        Some((out_of_band, a)) => Some((MethodV::ChannelOpen { out_of_band }, a)),
    }
}

pub open spec fn pm_channel_open_ok(a: Seq<u8>) -> Option<(MethodV, Seq<u8>)> {
    match p_longstr(a) {
        None => None,
        Some((channel_id, a)) => Some((MethodV::ChannelOpenOk { channel_id }, a)),
    }
}

pub open spec fn pm_channel_flow(a: Seq<u8>) -> Option<(MethodV, Seq<u8>)> {
    match p_u8(a) {
        None => None,
        Some((fl, a)) => if fl & 0xFE != 0 {
            None
        } else {
            Some((MethodV::ChannelFlow { active: (fl & 1) != 0 }, a))
        },
    }
}

pub open spec fn pm_channel_flow_ok(a: Seq<u8>) -> Option<(MethodV, Seq<u8>)> {
    match p_u8(a) {
        None => None,
        Some((fl, a)) => if fl & 0xFE != 0 {
            None
        } else {
            Some((MethodV::ChannelFlowOk { active: (fl & 1) != 0 }, a))
        },
    }
}

pub open spec fn pm_channel_close(a: Seq<u8>) -> Option<(MethodV, Seq<u8>)> {
    match p_u16(a) {
        None => None,
        Some((reply_code, a)) => match p_shortstr(a) {
            None => None,
            Some((reply_text, a)) => match p_u16(a) {
                None => None,
                Some((class_id, a)) => match p_u16(a) {
                    None => None,
                    Some((method_id, a)) => Some((
                        MethodV::ChannelClose { reply_code, reply_text, class_id, method_id },
                        a,
                    )),
                },
            },
        },
    }
}

pub open spec fn pm_access_request(a: Seq<u8>) -> Option<(MethodV, Seq<u8>)> {
    match p_shortstr(a) {
        None => None,
        Some((realm, a)) => match p_u8(a) {
            None => None,
            Some((fl, a)) => if fl & 0xE0 != 0 {
                None
            } else {
                Some((
                    MethodV::AccessRequest {
                        realm,
                        exclusive: (fl & 1) != 0,
                        passive: (fl & 2) != 0,
                        active: (fl & 4) != 0,
                        write: (fl & 8) != 0,
                        read: (fl & 16) != 0,
                    },
                    a,
                ))
            },
        },
    }
}

pub open spec fn pm_access_request_ok(a: Seq<u8>) -> Option<(MethodV, Seq<u8>)> {
    match p_u16(a) {
        None => None,
        Some((ticket, a)) => Some((MethodV::AccessRequestOk { ticket }, a)),
    }
}

pub open spec fn pm_exchange_declare_a(
    a: Seq<u8>,
) -> Option<((u16, Seq<u8>, Seq<u8>, u8), Seq<u8>)> {
    match p_u16(a) {
        None => None,
        Some((ticket, a)) => match p_shortstr(a) {
            None => None,
            Some((exchange, a)) => match p_shortstr(a) {
                None => None,
                Some((exchange_type, a)) => match p_u8(a) {
                    None => None,
                    Some((fl, a)) => Some(((ticket, exchange, exchange_type, fl), a)),
                },
            },
        },
    }
}

pub open spec fn pm_exchange_declare(a: Seq<u8>) -> Option<(MethodV, Seq<u8>)> {
    match pm_exchange_declare_a(a) {
        None => None,
        Some(((ticket, exchange, exchange_type, fl), a)) => if fl & 0xE0 != 0 {
            None
        } else {
            match p_table(a) {
                None => None,
                Some((arguments, a)) => Some((
                    MethodV::ExchangeDeclare {
                        ticket,
                        exchange,
                        exchange_type,
                        passive: (fl & 1) != 0,
                        durable: (fl & 2) != 0,
                        auto_delete: (fl & 4) != 0,
                        internal: (fl & 8) != 0,
                        nowait: (fl & 16) != 0,
                        arguments,
                    },
                    a,
                )),
            }
        },
    }
}

pub open spec fn pm_exchange_delete(a: Seq<u8>) -> Option<(MethodV, Seq<u8>)> {
    match p_u16(a) {
        None => None,
        Some((ticket, a)) => match p_shortstr(a) {
            None => None,
            Some((exchange, a)) => match p_u8(a) {
                None => None,
                Some((fl, a)) => if fl & 0xFC != 0 {
                    None
                } else {
                    Some((
                        MethodV::ExchangeDelete {
                            ticket,
                            exchange,
                            if_unused: (fl & 1) != 0,
                            nowait: (fl & 2) != 0,
                        },
                        a,
                    ))
                },
            },
        },
    }
}

/// Shared prefix of exchange.bind and exchange.unbind: ticket and the three
/// names.
pub open spec fn pm_exchange_bind_a(
    a: Seq<u8>,
) -> Option<((u16, Seq<u8>, Seq<u8>, Seq<u8>), Seq<u8>)> {
    match p_u16(a) {
        None => None,
        Some((ticket, a)) => match p_shortstr(a) {
            None => None,
            Some((destination, a)) => match p_shortstr(a) {
                None => None,
                Some((source, a)) => match p_shortstr(a) {
                    None => None,
                    Some((routing_key, a)) => Some(((ticket, destination, source, routing_key), a)),
                },
            },
        },
    }
}

pub open spec fn pm_exchange_bind(a: Seq<u8>) -> Option<(MethodV, Seq<u8>)> {
    match pm_exchange_bind_a(a) {
        None => None,
        Some(((ticket, destination, source, routing_key), a)) => match p_u8(a) {
            None => None,
            Some((fl, a)) => if fl & 0xFE != 0 {
                None
            } else {
                match p_table(a) {
                    None => None,
                    Some((arguments, a)) => Some((
                        MethodV::ExchangeBind {
                            ticket, destination, source, routing_key,
                            nowait: (fl & 1) != 0, arguments,
                        },
                        a,
                    )),
                }
            },
        },
    }
}

pub open spec fn pm_exchange_unbind(a: Seq<u8>) -> Option<(MethodV, Seq<u8>)> {
    match pm_exchange_bind_a(a) {
        None => None,
        Some(((ticket, destination, source, routing_key), a)) => match p_u8(a) {
            None => None,
            Some((fl, a)) => if fl & 0xFE != 0 {
                None
            } else {
                match p_table(a) {
                    None => None,
                    Some((arguments, a)) => Some((
                        MethodV::ExchangeUnbind {
                            ticket, destination, source, routing_key,
                            nowait: (fl & 1) != 0, arguments,
                        },
                        a,
                    )),
                }
            },
        },
    }
}

pub open spec fn pm_queue_declare(a: Seq<u8>) -> Option<(MethodV, Seq<u8>)> {
    match p_u16(a) {
        None => None,
        Some((ticket, a)) => match p_shortstr(a) {
            None => None,
            Some((queue, a)) => match p_u8(a) {
                None => None,
                Some((fl, a)) => if fl & 0xE0 != 0 {
                    None
                } else {
                    match p_table(a) {
                        None => None,
                        Some((arguments, a)) => Some((
                            MethodV::QueueDeclare {
                                ticket,
                                queue,
                                passive: (fl & 1) != 0,
                                durable: (fl & 2) != 0,
                                exclusive: (fl & 4) != 0,
                                auto_delete: (fl & 8) != 0,
                                nowait: (fl & 16) != 0,
                                arguments,
                            },
                            a,
                        )),
                    }
                },
            },
        },
    }
}

pub open spec fn pm_queue_declare_ok(a: Seq<u8>) -> Option<(MethodV, Seq<u8>)> {
    match p_shortstr(a) {
        None => None,
        Some((queue, a)) => match p_u32(a) {
            None => None,
            Some((message_count, a)) => match p_u32(a) {
                None => None,
                Some((consumer_count, a)) => Some((
                    MethodV::QueueDeclareOk { queue, message_count, consumer_count },
                    a,
                )),
            },
        },
    }
}

/// Shared prefix of queue.bind and queue.unbind: ticket, queue, exchange,
/// routing key.
pub open spec fn pm_queue_bind_a(
    a: Seq<u8>,
) -> Option<((u16, Seq<u8>, Seq<u8>, Seq<u8>), Seq<u8>)> {
    match p_u16(a) {
        None => None,
        Some((ticket, a)) => match p_shortstr(a) {
            None => None,
            Some((queue, a)) => match p_shortstr(a) {
                None => None,
                Some((exchange, a)) => match p_shortstr(a) {
                    None => None,
                    Some((routing_key, a)) => Some(((ticket, queue, exchange, routing_key), a)),
                },
            },
        },
    }
}

pub open spec fn pm_queue_bind(a: Seq<u8>) -> Option<(MethodV, Seq<u8>)> {
    match pm_queue_bind_a(a) {
        None => None,
        Some(((ticket, queue, exchange, routing_key), a)) => match p_u8(a) {
            None => None,
            Some((fl, a)) => if fl & 0xFE != 0 {
                None
            } else {
                match p_table(a) {
                    None => None,
                    Some((arguments, a)) => Some((
                        MethodV::QueueBind {
                            ticket, queue, exchange, routing_key,
                            nowait: (fl & 1) != 0, arguments,
                        },
                        a,
                    )),
                }
            },
        },
    }
}

pub open spec fn pm_queue_purge(a: Seq<u8>) -> Option<(MethodV, Seq<u8>)> {
    match p_u16(a) {
        None => None,
        Some((ticket, a)) => match p_shortstr(a) {
            None => None,
            Some((queue, a)) => match p_u8(a) {
                None => None,
                Some((fl, a)) => if fl & 0xFE != 0 {
                    None
                } else {
                    Some((MethodV::QueuePurge { ticket, queue, nowait: (fl & 1) != 0 }, a))
                },
            },
        },
    }
}

pub open spec fn pm_queue_purge_ok(a: Seq<u8>) -> Option<(MethodV, Seq<u8>)> {
    match p_u32(a) {
        None => None,
        Some((message_count, a)) => Some((MethodV::QueuePurgeOk { message_count }, a)),
    }
}

pub open spec fn pm_queue_delete(a: Seq<u8>) -> Option<(MethodV, Seq<u8>)> {
    match p_u16(a) {
        None => None,
        Some((ticket, a)) => match p_shortstr(a) {
            None => None,
            Some((queue, a)) => match p_u8(a) {
                None => None,
                Some((fl, a)) => if fl & 0xF8 != 0 {
                    None
                } else {
                    Some((
                        MethodV::QueueDelete {
                            ticket,
                            queue,
                            if_unused: (fl & 1) != 0,
                            if_empty: (fl & 2) != 0,
                            nowait: (fl & 4) != 0,
                        },
                        a,
                    ))
                },
            },
        },
    }
}

pub open spec fn pm_queue_delete_ok(a: Seq<u8>) -> Option<(MethodV, Seq<u8>)> {
    match p_u32(a) {
        None => None,
        Some((message_count, a)) => Some((MethodV::QueueDeleteOk { message_count }, a)),
    }
}

pub open spec fn pm_queue_unbind(a: Seq<u8>) -> Option<(MethodV, Seq<u8>)> {
    match pm_queue_bind_a(a) {
        None => None,
        Some(((ticket, queue, exchange, routing_key), a)) => match p_table(a) {
            None => None,
            Some((arguments, a)) => Some((
                MethodV::QueueUnbind { ticket, queue, exchange, routing_key, arguments },
                a,
            )),
        },
    }
}

pub open spec fn pm_basic_qos(a: Seq<u8>) -> Option<(MethodV, Seq<u8>)> {
    match p_u32(a) {
        None => None,
        Some((prefetch_size, a)) => match p_u16(a) {
            None => None,
            Some((prefetch_count, a)) => match p_u8(a) {
                None => None,
                Some((fl, a)) => if fl & 0xFE != 0 {
                    None
                } else {
                    Some((
                        MethodV::BasicQos { prefetch_size, prefetch_count, global: (fl & 1) != 0 },
                        a,
                    ))
                },
            },
        },
    }
}

pub open spec fn pm_basic_consume_a(
    a: Seq<u8>,
) -> Option<((u16, Seq<u8>, Seq<u8>, u8), Seq<u8>)> {
    match p_u16(a) {
        None => None,
        Some((ticket, a)) => match p_shortstr(a) {
            None => None,
            Some((queue, a)) => match p_shortstr(a) {
                None => None,
                Some((consumer_tag, a)) => match p_u8(a) {
                    None => None,
                    Some((fl, a)) => Some(((ticket, queue, consumer_tag, fl), a)),
                },
            },
        },
    }
}

pub open spec fn pm_basic_consume(a: Seq<u8>) -> Option<(MethodV, Seq<u8>)> {
    match pm_basic_consume_a(a) {
        None => None,
        Some(((ticket, queue, consumer_tag, fl), a)) => if fl & 0xF0 != 0 {
            None
        } else {
            match p_table(a) {
                None => None,
                Some((arguments, a)) => Some((
                    MethodV::BasicConsume {
                        ticket,
                        queue,
                        consumer_tag,
                        no_local: (fl & 1) != 0,
                        no_ack: (fl & 2) != 0,
                        exclusive: (fl & 4) != 0,
                        nowait: (fl & 8) != 0,
                        arguments,
                    },
                    a,
                )),
            }
        },
    }
}

pub open spec fn pm_basic_consume_ok(a: Seq<u8>) -> Option<(MethodV, Seq<u8>)> {
    match p_shortstr(a) {
        None => None,
        Some((consumer_tag, a)) => Some((MethodV::BasicConsumeOk { consumer_tag }, a)),
    }
}

pub open spec fn pm_basic_publish(a: Seq<u8>) -> Option<(MethodV, Seq<u8>)> {
    match p_u16(a) {
        None => None,
        Some((ticket, a)) => match p_shortstr(a) {
            None => None,
            Some((exchange, a)) => match p_shortstr(a) {
                None => None,
                Some((routing_key, a)) => match p_u8(a) {
                    None => None,
                    Some((fl, a)) => if fl & 0xFC != 0 {
                        None
                    } else {
                        Some((
                            MethodV::BasicPublish {
                                ticket,
                                exchange,
                                routing_key,
                                mandatory: (fl & 1) != 0,
                                immediate: (fl & 2) != 0,
                            },
                            a,
                        ))
                    },
                },
            },
        },
    }
}

pub open spec fn pm_basic_return(a: Seq<u8>) -> Option<(MethodV, Seq<u8>)> {
    match p_u16(a) {
        None => None,
        Some((reply_code, a)) => match p_shortstr(a) {
            None => None,
            Some((reply_text, a)) => match p_shortstr(a) {
                None => None,
                Some((exchange, a)) => match p_shortstr(a) {
                    None => None,
                    Some((routing_key, a)) => Some((
                        MethodV::BasicReturn { reply_code, reply_text, exchange, routing_key },
                        a,
                    )),
                },
            },
        },
    }
}

pub open spec fn pm_basic_deliver_a(a: Seq<u8>) -> Option<((Seq<u8>, u64, u8, Seq<u8>), Seq<u8>)> {
    match p_shortstr(a) {
        None => None,
        Some((consumer_tag, a)) => match p_u64(a) {
            None => None,
            Some((delivery_tag, a)) => match p_u8(a) {
                None => None,
                Some((fl, a)) => match p_shortstr(a) {
                    None => None,
                    Some((exchange, a)) => Some(((consumer_tag, delivery_tag, fl, exchange), a)),
                },
            },
        },
    }
}

pub open spec fn pm_basic_deliver(a: Seq<u8>) -> Option<(MethodV, Seq<u8>)> {
    match pm_basic_deliver_a(a) {
        None => None,
        Some(((consumer_tag, delivery_tag, fl, exchange), a)) => if fl & 0xFE != 0 {
            None
        } else {
            match p_shortstr(a) {
                None => None,
                Some((routing_key, a)) => Some((
                    MethodV::BasicDeliver {
                        consumer_tag,
                        delivery_tag,
                        redelivered: (fl & 1) != 0,
                        exchange,
                        routing_key,
                    },
                    a,
                )),
            }
        },
    }
}

pub open spec fn pm_basic_get(a: Seq<u8>) -> Option<(MethodV, Seq<u8>)> {
    match p_u16(a) {
        None => None,
        Some((ticket, a)) => match p_shortstr(a) {
            None => None,
            Some((queue, a)) => match p_u8(a) {
                None => None,
                Some((fl, a)) => if fl & 0xFE != 0 {
                    None
                } else {
                    Some((MethodV::BasicGet { ticket, queue, no_ack: (fl & 1) != 0 }, a))
                },
            },
        },
    }
}

pub open spec fn pm_basic_get_ok_a(a: Seq<u8>) -> Option<((u64, u8, Seq<u8>, Seq<u8>), Seq<u8>)> {
    match p_u64(a) {
        None => None,
        Some((delivery_tag, a)) => match p_u8(a) {
            None => None,
            Some((fl, a)) => match p_shortstr(a) {
                None => None,
                Some((exchange, a)) => match p_shortstr(a) {
                    None => None,
                    Some((routing_key, a)) => Some(((delivery_tag, fl, exchange, routing_key), a)),
                },
            },
        },
    }
}

pub open spec fn pm_basic_get_ok(a: Seq<u8>) -> Option<(MethodV, Seq<u8>)> {
    match pm_basic_get_ok_a(a) {
        None => None,
        Some(((delivery_tag, fl, exchange, routing_key), a)) => if fl & 0xFE != 0 {
            None
        } else {
            match p_u32(a) {
                None => None,
                Some((message_count, a)) => Some((
                    MethodV::BasicGetOk {
                        delivery_tag,
                        redelivered: (fl & 1) != 0,
                        exchange,
                        routing_key,
                        message_count,
                    },
                    a,
                )),
            }
        },
    }
}

pub open spec fn pm_basic_get_empty(a: Seq<u8>) -> Option<(MethodV, Seq<u8>)> {
    match p_shortstr(a) {
        None => None,
        Some((cluster_id, a)) => Some((MethodV::BasicGetEmpty { cluster_id }, a)),
    }
}

pub open spec fn pm_basic_ack(a: Seq<u8>) -> Option<(MethodV, Seq<u8>)> {
    match p_u64(a) {
        None => None,
        Some((delivery_tag, a)) => match p_u8(a) {
            None => None,
            Some((fl, a)) => if fl & 0xFE != 0 {
                None
            } else {
                Some((MethodV::BasicAck { delivery_tag, multiple: (fl & 1) != 0 }, a))
            },
        },
    }
}

pub open spec fn pm_basic_reject(a: Seq<u8>) -> Option<(MethodV, Seq<u8>)> {
    match p_u64(a) {
        None => None,
        Some((delivery_tag, a)) => match p_u8(a) {
            None => None,
            Some((fl, a)) => if fl & 0xFE != 0 {
                None
            } else {
                Some((MethodV::BasicReject { delivery_tag, requeue: (fl & 1) != 0 }, a))
            },
        },
    }
}

pub open spec fn pm_basic_nack(a: Seq<u8>) -> Option<(MethodV, Seq<u8>)> {
    match p_u64(a) {
        None => None,
        Some((delivery_tag, a)) => match p_u8(a) {
            None => None,
            Some((fl, a)) => if fl & 0xFC != 0 {
                None
            } else {
                Some((
                    MethodV::BasicNack {
                        delivery_tag,
                        multiple: (fl & 1) != 0,
                        requeue: (fl & 2) != 0,
                    },
                    a,
                ))
            },
        },
    }
}

pub open spec fn pm_confirm_select(a: Seq<u8>) -> Option<(MethodV, Seq<u8>)> {
    match p_u8(a) {
        None => None,
        Some((fl, a)) => if fl & 0xFE != 0 {
            None
        } else {
            Some((MethodV::ConfirmSelect { nowait: (fl & 1) != 0 }, a))
        },
    }
}

// ---------------------------------------------------------------------------
// Dispatch by class and method id
// ---------------------------------------------------------------------------

pub open spec fn parse_args_connection(mid: u16, a: Seq<u8>) -> Option<(MethodV, Seq<u8>)> {
    if mid == 10 {
        pm_connection_start(a)
    } else if mid == 11 {
        pm_connection_start_ok(a)
    } else if mid == 30 {
        pm_connection_tune(a)
    } else if mid == 31 {
        pm_connection_tune_ok(a)
    } else if mid == 40 {
        pm_connection_open(a)
    } else if mid == 41 {
        pm_connection_open_ok(a)
    } else if mid == 50 {
        pm_connection_close(a)
    } else if mid == 51 {
        Some((MethodV::ConnectionCloseOk, a))
    } else {
        None
    }
}

pub open spec fn parse_args_channel(mid: u16, a: Seq<u8>) -> Option<(MethodV, Seq<u8>)> {
    if mid == 10 {
        pm_channel_open(a)
    } else if mid == 11 {
        pm_channel_open_ok(a)
    } else if mid == 20 {
        pm_channel_flow(a)
    } else if mid == 21 {
        pm_channel_flow_ok(a)
    } else if mid == 40 {
        pm_channel_close(a)
    } else if mid == 41 {
        Some((MethodV::ChannelCloseOk, a))
    } else {
        None
    }
}

pub open spec fn parse_args_access(mid: u16, a: Seq<u8>) -> Option<(MethodV, Seq<u8>)> {
    if mid == 10 {
        pm_access_request(a)
    } else if mid == 11 {
        pm_access_request_ok(a)
    } else {
        None
    }
}

pub open spec fn parse_args_exchange(mid: u16, a: Seq<u8>) -> Option<(MethodV, Seq<u8>)> {
    if mid == 10 {
        pm_exchange_declare(a)
    } else if mid == 11 {
        Some((MethodV::ExchangeDeclareOk, a))
    } else if mid == 20 {
        pm_exchange_delete(a)
    } else if mid == 21 {
        Some((MethodV::ExchangeDeleteOk, a))
    } else if mid == 30 {
        pm_exchange_bind(a)
    } else if mid == 31 {
        Some((MethodV::ExchangeBindOk, a))
    } else if mid == 40 {
        pm_exchange_unbind(a)
    } else if mid == 51 {
        Some((MethodV::ExchangeUnbindOk, a))
    } else {
        None
    }
}

pub open spec fn parse_args_queue(mid: u16, a: Seq<u8>) -> Option<(MethodV, Seq<u8>)> {
    if mid == 10 {
        pm_queue_declare(a)
    } else if mid == 11 {
        pm_queue_declare_ok(a)
    } else if mid == 20 {
        pm_queue_bind(a)
    } else if mid == 21 {
        Some((MethodV::QueueBindOk, a))
    } else if mid == 30 {
        pm_queue_purge(a)
    } else if mid == 31 {
        pm_queue_purge_ok(a)
    } else if mid == 40 {
        pm_queue_delete(a)
    } else if mid == 41 {
        pm_queue_delete_ok(a)
    } else if mid == 50 {
        pm_queue_unbind(a)
    } else if mid == 51 {
        Some((MethodV::QueueUnbindOk, a))
    } else {
        None
    }
}

pub open spec fn parse_args_basic(mid: u16, a: Seq<u8>) -> Option<(MethodV, Seq<u8>)> {
    if mid == 10 {
        pm_basic_qos(a)
    } else if mid == 11 {
        Some((MethodV::BasicQosOk, a))
    } else if mid == 20 {
        pm_basic_consume(a)
    } else if mid == 21 {
        pm_basic_consume_ok(a)
    } else if mid == 40 {
        pm_basic_publish(a)
    } else if mid == 50 {
        pm_basic_return(a)
    } else if mid == 60 {
        pm_basic_deliver(a)
    } else if mid == 70 {
        pm_basic_get(a)
    } else if mid == 71 {
        pm_basic_get_ok(a)
    } else if mid == 72 {
        pm_basic_get_empty(a)
    } else if mid == 80 {
        pm_basic_ack(a)
    } else if mid == 90 {
        pm_basic_reject(a)
    } else if mid == 120 {
        pm_basic_nack(a)
    } else {
        None
    }
}

pub open spec fn parse_args_confirm(mid: u16, a: Seq<u8>) -> Option<(MethodV, Seq<u8>)> {
    if mid == 10 {
        pm_confirm_select(a)
    } else if mid == 11 {
        Some((MethodV::ConfirmSelectOk, a))
    } else {
        None
    }
}

/// Parse the arguments of method (`cls`, `mid`); `None` when the pair is
/// unknown or the bytes do not fit the method's argument layout.
pub open spec fn parse_args(cls: u16, mid: u16, a: Seq<u8>) -> Option<(MethodV, Seq<u8>)> {
    if cls == 10 {
        parse_args_connection(mid, a)
    } else if cls == 20 {
        parse_args_channel(mid, a)
    } else if cls == 30 {
        parse_args_access(mid, a)
    } else if cls == 40 {
        parse_args_exchange(mid, a)
    } else if cls == 50 {
        parse_args_queue(mid, a)
    } else if cls == 60 {
        parse_args_basic(mid, a)
    } else if cls == 85 {
        parse_args_confirm(mid, a)
    } else {
        None
    }
}

// ---------------------------------------------------------------------------
// Greedy draining of whole frames, and chunked feeding
// ---------------------------------------------------------------------------

/// Greedily parse whole frames from the front of `b`.  `Some((fs, rest))`
/// gives the parsed frames and the unconsumed tail; `None` means the bytes
/// are malformed.  `fuel` only bounds recursion; any value at least `b.len()`
/// gives the same result.
pub open spec fn drain_frames(b: Seq<u8>, fuel: nat) -> Option<(Seq<FrameV>, Seq<u8>)>
    decreases fuel,
{
    match parse_frame(b) {
        FrameParse::Incomplete => Some((Seq::empty(), b)),
        FrameParse::Malformed => None,
        FrameParse::Parsed(f, c) => {
            if 0 < c <= b.len() && fuel > 0 {
                match drain_frames(b.skip(c as int), (fuel - 1) as nat) {
                    None => None,
                    Some((fs, rest)) => Some((seq![f] + fs, rest)),
                }
            } else {
                None
            }
        },
    }
}

pub open spec fn drain(b: Seq<u8>) -> Option<(Seq<FrameV>, Seq<u8>)> {
    drain_frames(b, b.len())
}

/// The byte stream of a frame sequence.
pub open spec fn frames_bytes(fs: Seq<FrameV>) -> Seq<u8>
    decreases fs.len(),
{
    if fs.len() == 0 {
        Seq::empty()
    } else {
        frame_bytes(fs[0]) + frames_bytes(fs.skip(1))
    }
}

pub open spec fn concat_chunks(cs: Seq<Seq<u8>>) -> Seq<u8>
    decreases cs.len(),
{
    if cs.len() == 0 {
        Seq::empty()
    } else {
        cs[0] + concat_chunks(cs.skip(1))
    }
}

/// The streaming decoder: append one chunk to the buffer, drain whole frames,
/// repeat.  `Some((fs, rest))` gives every frame decoded over the run and the
/// bytes still buffered.
pub open spec fn feed_chunks(
    buf: Seq<u8>,
    acc: Seq<FrameV>,
    cs: Seq<Seq<u8>>,
) -> Option<(Seq<FrameV>, Seq<u8>)>
    decreases cs.len(),
{
    if cs.len() == 0 {
        Some((acc, buf))
    } else {
        match drain(buf + cs[0]) {
            None => None,
            Some((fs, rest)) => feed_chunks(rest, acc + fs, cs.skip(1)),
        }
    }
}

} // verus!
