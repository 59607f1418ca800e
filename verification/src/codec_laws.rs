//! Proofs about the frame codec: every well-formed frame parses back to
//! itself (round trip), parsing is insensitive to how the byte stream was
//! fragmented, and the greedy frame drain composes over buffer growth.

use vstd::prelude::*;
use crate::wire::{
    enc_u8, enc_u16, enc_u32, enc_u64, enc_shortstr, enc_longstr, bits_byte,
    p_u8, p_u16, p_shortstr, be_u16, be_u32, lemma_p_u8, lemma_p_u16, lemma_p_u32, lemma_p_u64, lemma_p_shortstr,
    lemma_p_longstr, lemma_bits_byte, lemma_be_u16_enc, lemma_be_u32_enc,
};
use crate::frame::{FieldValueV, TableEntryV, PropsV, MethodV, ContentHeaderV, FrameV};
use crate::codec::{
    drain_frames, drain, frames_bytes, concat_chunks, feed_chunks,
    pm_exchange_bind_a, pm_queue_bind_a, pm_basic_consume_a, pm_basic_get_ok_a,
    pm_connection_start_a, pm_queue_delete,
    pm_exchange_bind, pm_exchange_unbind, pm_queue_bind, pm_queue_unbind, pm_basic_consume,
    pm_connection_start,
    p_props_hi_a, p_props_hi_b, p_props_lo_a, p_props_lo_b,
    fv_bytes, fv_wf, entry_bytes, entry_wf, table_content, table_wf, enc_table, p_fv, p_entry,
    parse_entries, p_table, opt_shortstr_bytes, opt_u8_bytes, opt_u64_bytes, opt_table_bytes,
    props_flags_hi, props_flags_lo, props_bytes, props_hi_bytes, props_lo_bytes, props_hi_of,
    props_lo_of, assemble_props, p_props_hi, p_props_lo, opt_shortstr_wf, props_wf,
    p_opt_shortstr, p_opt_u8, p_opt_u64, p_opt_table, p_props, method_cm, args_bytes, method_wf,
    method_payload, header_payload, protocol_header_bytes, frame_payload, frame_type,
    frame_channel, frame_bytes, frame_wf, FrameParse, parse_method_payload, parse_header_payload,
    parse_protocol_header, parse_frame, parse_args,
};

verus! {

// ---------------------------------------------------------------------------
// Field values, entries, tables
// ---------------------------------------------------------------------------

/// Reassociating one concatenation step; chained to rewrite a left-nested
/// encoding into the right-nested shape the peel parsers follow.
proof fn seq_assoc<T>(a: Seq<T>, b: Seq<T>, c: Seq<T>)
    ensures
        (a + b) + c == a + (b + c),
{
    assert((a + b) + c =~= a + (b + c));
}

proof fn lemma_i32_cast(n: i32)
    ensures
        ((n as u32) as i32) == n,
{
    assert(((n as u32) as i32) == n) by (bit_vector);
}

pub proof fn lemma_p_fv(v: FieldValueV, rest: Seq<u8>)
    requires
        fv_wf(v),
    ensures
        p_fv(fv_bytes(v) + rest) == Some((v, rest)),
{
    match v {
        FieldValueV::Boolean(b) => {
            let x: u8 = if b { 1 } else { 0 };
            assert(fv_bytes(v) + rest =~= enc_u8(0x74) + (enc_u8(x) + rest));
            lemma_p_u8(0x74, enc_u8(x) + rest);
            lemma_p_u8(x, rest);
        },
        FieldValueV::LongInt(n) => {
            assert(fv_bytes(v) + rest =~= enc_u8(0x49) + (enc_u32(n as u32) + rest));
            lemma_p_u8(0x49, enc_u32(n as u32) + rest);
            lemma_p_u32(n as u32, rest);
            lemma_i32_cast(n);
        },
        FieldValueV::LongString(s) => {
            assert(fv_bytes(v) + rest =~= enc_u8(0x53) + (enc_longstr(s) + rest));
            lemma_p_u8(0x53, enc_longstr(s) + rest);
            lemma_p_longstr(s, rest);
        },
        FieldValueV::Table(c) => {
            assert(fv_bytes(v) + rest =~= enc_u8(0x46) + (enc_longstr(c) + rest));
            lemma_p_u8(0x46, enc_longstr(c) + rest);
            lemma_p_longstr(c, rest);
        },
    }
}

pub proof fn lemma_p_entry(e: TableEntryV, rest: Seq<u8>)
    requires
        entry_wf(e),
    ensures
        p_entry(entry_bytes(e) + rest) == Some((e, rest)),
{
    assert(entry_bytes(e) + rest =~= enc_shortstr(e.key) + (fv_bytes(e.value) + rest));
    lemma_p_shortstr(e.key, fv_bytes(e.value) + rest);
    lemma_p_fv(e.value, rest);
}

proof fn lemma_parse_entries(t: Seq<TableEntryV>)
    requires
        forall|i: int| 0 <= i < t.len() ==> entry_wf(#[trigger] t[i]),
    ensures
        parse_entries(table_content(t)) == Some(t),
    decreases t.len(),
{
    if t.len() == 0 {
        assert(table_content(t) =~= Seq::<u8>::empty());
        assert(parse_entries(table_content(t)) == Some(Seq::<TableEntryV>::empty()));
        assert(Seq::<TableEntryV>::empty() =~= t);
    } else {
        let c = table_content(t);
        let tail = table_content(t.skip(1));
        lemma_p_entry(t[0], tail);
        assert(entry_bytes(t[0]).len() >= 1);
        assert(c.len() == entry_bytes(t[0]).len() + tail.len());
        assert(forall|i: int| 0 <= i < t.skip(1).len() ==> entry_wf(#[trigger] t.skip(1)[i]));
        lemma_parse_entries(t.skip(1));
        assert(seq![t[0]] + t.skip(1) =~= t);
    }
}

pub proof fn lemma_p_table(t: Seq<TableEntryV>, rest: Seq<u8>)
    requires
        table_wf(t),
    ensures
        p_table(enc_table(t) + rest) == Some((t, rest)),
{
    let c = table_content(t);
    assert(enc_table(t) + rest =~= enc_longstr(c) + rest);
    lemma_p_longstr(c, rest);
    lemma_parse_entries(t);
}

// ---------------------------------------------------------------------------
// Basic properties
// ---------------------------------------------------------------------------

proof fn lemma_p_opt_shortstr(o: Option<Seq<u8>>, rest: Seq<u8>)
    requires
        opt_shortstr_wf(o),
    ensures
        p_opt_shortstr(o is Some, opt_shortstr_bytes(o) + rest) == Some((o, rest)),
{
    match o {
        Some(s) => {
            lemma_p_shortstr(s, rest);
        },
        None => {
            assert(opt_shortstr_bytes(o) + rest =~= rest);
        },
    }
}

proof fn lemma_p_opt_u8(o: Option<u8>, rest: Seq<u8>)
    ensures
        p_opt_u8(o is Some, opt_u8_bytes(o) + rest) == Some((o, rest)),
{
    match o {
        Some(v) => {
            lemma_p_u8(v, rest);
        },
        None => {
            assert(opt_u8_bytes(o) + rest =~= rest);
        },
    }
}

proof fn lemma_p_opt_u64(o: Option<u64>, rest: Seq<u8>)
    ensures
        p_opt_u64(o is Some, opt_u64_bytes(o) + rest) == Some((o, rest)),
{
    match o {
        Some(v) => {
            lemma_p_u64(v, rest);
        },
        None => {
            assert(opt_u64_bytes(o) + rest =~= rest);
        },
    }
}

proof fn lemma_p_opt_table(o: Option<Seq<TableEntryV>>, rest: Seq<u8>)
    requires
        match o {
            Some(t) => table_wf(t),
            None => true,
        },
    ensures
        p_opt_table(o is Some, opt_table_bytes(o) + rest) == Some((o, rest)),
{
    match o {
        Some(t) => {
            lemma_p_table(t, rest);
        },
        None => {
            assert(opt_table_bytes(o) + rest =~= rest);
        },
    }
}

#[verifier::spinoff_prover]
#[verifier::rlimit(100)]
proof fn lemma_p_props_hi_a(p: PropsV, rest: Seq<u8>)
    requires
        props_wf(p),
    ensures
        p_props_hi_a(
            props_flags_hi(p),
            opt_shortstr_bytes(p.content_type) + (opt_shortstr_bytes(p.content_encoding)
                + (opt_table_bytes(p.headers) + (opt_u8_bytes(p.delivery_mode) + rest))),
        ) == Some(((p.content_type, p.content_encoding, p.headers, p.delivery_mode), rest)),
{
    lemma_bits_byte(
        p.expiration is Some, p.reply_to is Some, p.correlation_id is Some,
        p.priority is Some, p.delivery_mode is Some, p.headers is Some,
        p.content_encoding is Some, p.content_type is Some,
    );
    let hi = props_flags_hi(p);
    let c1 = opt_shortstr_bytes(p.content_type);
    let c2 = opt_shortstr_bytes(p.content_encoding);
    let c3 = opt_table_bytes(p.headers);
    let c4 = opt_u8_bytes(p.delivery_mode);
    let r4 = c4 + rest;
    let r3 = c3 + r4;
    let r2 = c2 + r3;
    lemma_p_opt_shortstr(p.content_type, r2);
    assert(p_opt_shortstr((hi & 128) != 0, c1 + r2) == Some((p.content_type, r2)));
    lemma_p_opt_shortstr(p.content_encoding, r3);
    assert(p_opt_shortstr((hi & 64) != 0, r2) == Some((p.content_encoding, r3)));
    lemma_p_opt_table(p.headers, r4);
    assert(p_opt_table((hi & 32) != 0, r3) == Some((p.headers, r4)));
    lemma_p_opt_u8(p.delivery_mode, rest);
    assert(p_opt_u8((hi & 16) != 0, r4) == Some((p.delivery_mode, rest)));
}

#[verifier::spinoff_prover]
#[verifier::rlimit(100)]
proof fn lemma_p_props_hi_b(p: PropsV, rest: Seq<u8>)
    requires
        props_wf(p),
    ensures
        p_props_hi_b(
            props_flags_hi(p),
            opt_u8_bytes(p.priority) + (opt_shortstr_bytes(p.correlation_id)
                + (opt_shortstr_bytes(p.reply_to) + (opt_shortstr_bytes(p.expiration) + rest))),
        ) == Some(((p.priority, p.correlation_id, p.reply_to, p.expiration), rest)),
{
    lemma_bits_byte(
        p.expiration is Some, p.reply_to is Some, p.correlation_id is Some,
        p.priority is Some, p.delivery_mode is Some, p.headers is Some,
        p.content_encoding is Some, p.content_type is Some,
    );
    let hi = props_flags_hi(p);
    let c5 = opt_u8_bytes(p.priority);
    let c6 = opt_shortstr_bytes(p.correlation_id);
    let c7 = opt_shortstr_bytes(p.reply_to);
    let c8 = opt_shortstr_bytes(p.expiration);
    let r8 = c8 + rest;
    let r7 = c7 + r8;
    let r6 = c6 + r7;
    lemma_p_opt_u8(p.priority, r6);
    assert(p_opt_u8((hi & 8) != 0, c5 + r6) == Some((p.priority, r6)));
    lemma_p_opt_shortstr(p.correlation_id, r7);
    assert(p_opt_shortstr((hi & 4) != 0, r6) == Some((p.correlation_id, r7)));
    lemma_p_opt_shortstr(p.reply_to, r8);
    assert(p_opt_shortstr((hi & 2) != 0, r7) == Some((p.reply_to, r8)));
    lemma_p_opt_shortstr(p.expiration, rest);
    assert(p_opt_shortstr((hi & 1) != 0, r8) == Some((p.expiration, rest)));
}

#[verifier::spinoff_prover]
#[verifier::rlimit(100)]
proof fn lemma_p_props_hi(p: PropsV, rest: Seq<u8>)
    requires
        props_wf(p),
    ensures
        p_props_hi(props_flags_hi(p), props_hi_bytes(p) + rest)
            == Some((props_hi_of(p), rest)),
{
    let c1 = opt_shortstr_bytes(p.content_type);
    let c2 = opt_shortstr_bytes(p.content_encoding);
    let c3 = opt_table_bytes(p.headers);
    let c4 = opt_u8_bytes(p.delivery_mode);
    let c5 = opt_u8_bytes(p.priority);
    let c6 = opt_shortstr_bytes(p.correlation_id);
    let c7 = opt_shortstr_bytes(p.reply_to);
    let c8 = opt_shortstr_bytes(p.expiration);
    let mid = c5 + (c6 + (c7 + (c8 + rest)));
    let r8 = c8 + rest;
    let r7 = c7 + r8;
    let r6 = c6 + r7;
    let r5 = c5 + r6;
    let r4 = c4 + r5;
    let r3 = c3 + r4;
    let r2 = c2 + r3;
    let l2 = c1 + c2;
    let l3 = l2 + c3;
    let l4 = l3 + c4;
    let l5 = l4 + c5;
    let l6 = l5 + c6;
    let l7 = l6 + c7;
    assert(props_hi_bytes(p) == l7 + c8);
    seq_assoc(l7, c8, rest);
    seq_assoc(l6, c7, r8);
    seq_assoc(l5, c6, r7);
    seq_assoc(l4, c5, r6);
    seq_assoc(l3, c4, r5);
    seq_assoc(l2, c3, r4);
    seq_assoc(c1, c2, r3);
    assert(props_hi_bytes(p) + rest == c1 + r2);
    assert(mid == r5);
    lemma_p_props_hi_a(p, mid);
    lemma_p_props_hi_b(p, rest);
}

#[verifier::spinoff_prover]
#[verifier::rlimit(100)]
proof fn lemma_p_props_lo_a(p: PropsV, rest: Seq<u8>)
    requires
        props_wf(p),
    ensures
        p_props_lo_a(
            props_flags_lo(p),
            opt_shortstr_bytes(p.message_id) + (opt_u64_bytes(p.timestamp)
                + (opt_shortstr_bytes(p.message_type) + rest)),
        ) == Some(((p.message_id, p.timestamp, p.message_type), rest)),
{
    lemma_bits_byte(
        false, false, p.cluster_id is Some, p.app_id is Some, p.user_id is Some,
        p.message_type is Some, p.timestamp is Some, p.message_id is Some,
    );
    let lo = props_flags_lo(p);
    let c9 = opt_shortstr_bytes(p.message_id);
    let c10 = opt_u64_bytes(p.timestamp);
    let c11 = opt_shortstr_bytes(p.message_type);
    let r11 = c11 + rest;
    let r10 = c10 + r11;
    lemma_p_opt_shortstr(p.message_id, r10);
    assert(p_opt_shortstr((lo & 128) != 0, c9 + r10) == Some((p.message_id, r10)));
    lemma_p_opt_u64(p.timestamp, r11);
    assert(p_opt_u64((lo & 64) != 0, r10) == Some((p.timestamp, r11)));
    lemma_p_opt_shortstr(p.message_type, rest);
    assert(p_opt_shortstr((lo & 32) != 0, r11) == Some((p.message_type, rest)));
}

#[verifier::spinoff_prover]
#[verifier::rlimit(100)]
proof fn lemma_p_props_lo_b(p: PropsV, rest: Seq<u8>)
    requires
        props_wf(p),
    ensures
        p_props_lo_b(
            props_flags_lo(p),
            opt_shortstr_bytes(p.user_id) + (opt_shortstr_bytes(p.app_id)
                + (opt_shortstr_bytes(p.cluster_id) + rest)),
        ) == Some(((p.user_id, p.app_id, p.cluster_id), rest)),
{
    lemma_bits_byte(
        false, false, p.cluster_id is Some, p.app_id is Some, p.user_id is Some,
        p.message_type is Some, p.timestamp is Some, p.message_id is Some,
    );
    let lo = props_flags_lo(p);
    let c12 = opt_shortstr_bytes(p.user_id);
    let c13 = opt_shortstr_bytes(p.app_id);
    let c14 = opt_shortstr_bytes(p.cluster_id);
    let r14 = c14 + rest;
    let r13 = c13 + r14;
    lemma_p_opt_shortstr(p.user_id, r13);
    assert(p_opt_shortstr((lo & 16) != 0, c12 + r13) == Some((p.user_id, r13)));
    lemma_p_opt_shortstr(p.app_id, r14);
    assert(p_opt_shortstr((lo & 8) != 0, r13) == Some((p.app_id, r14)));
    lemma_p_opt_shortstr(p.cluster_id, rest);
    assert(p_opt_shortstr((lo & 4) != 0, r14) == Some((p.cluster_id, rest)));
}

#[verifier::spinoff_prover]
#[verifier::rlimit(100)]
proof fn lemma_p_props_lo(p: PropsV, rest: Seq<u8>)
    requires
        props_wf(p),
    ensures
        p_props_lo(props_flags_lo(p), props_lo_bytes(p) + rest)
            == Some((props_lo_of(p), rest)),
{
    let c9 = opt_shortstr_bytes(p.message_id);
    let c10 = opt_u64_bytes(p.timestamp);
    let c11 = opt_shortstr_bytes(p.message_type);
    let c12 = opt_shortstr_bytes(p.user_id);
    let c13 = opt_shortstr_bytes(p.app_id);
    let c14 = opt_shortstr_bytes(p.cluster_id);
    let mid = c12 + (c13 + (c14 + rest));
    let r14 = c14 + rest;
    let r13 = c13 + r14;
    let r12 = c12 + r13;
    let r11 = c11 + r12;
    let r10 = c10 + r11;
    let l10 = c9 + c10;
    let l11 = l10 + c11;
    let l12 = l11 + c12;
    let l13 = l12 + c13;
    assert(props_lo_bytes(p) == l13 + c14);
    seq_assoc(l13, c14, rest);
    seq_assoc(l12, c13, r14);
    seq_assoc(l11, c12, r13);
    seq_assoc(l10, c11, r12);
    seq_assoc(c9, c10, r11);
    assert(props_lo_bytes(p) + rest == c9 + r10);
    assert(mid == r12);
    lemma_p_props_lo_a(p, mid);
    lemma_p_props_lo_b(p, rest);
}

#[verifier::spinoff_prover]
#[verifier::rlimit(100)]
pub proof fn lemma_p_props(p: PropsV, rest: Seq<u8>)
    requires
        props_wf(p),
    ensures
        p_props(props_bytes(p) + rest) == Some((p, rest)),
{
    let hi = props_flags_hi(p);
    let lo = props_flags_lo(p);
    lemma_bits_byte(
        false, false, p.cluster_id is Some, p.app_id is Some, p.user_id is Some,
        p.message_type is Some, p.timestamp is Some, p.message_id is Some,
    );
    let r1 = props_hi_bytes(p) + (props_lo_bytes(p) + rest);
    let m2 = enc_u8(hi) + enc_u8(lo);
    let m3 = m2 + props_hi_bytes(p);
    assert(props_bytes(p) == m3 + props_lo_bytes(p));
    seq_assoc(m3, props_lo_bytes(p), rest);
    seq_assoc(m2, props_hi_bytes(p), props_lo_bytes(p) + rest);
    seq_assoc(enc_u8(hi), enc_u8(lo), r1);
    assert(props_bytes(p) + rest == enc_u8(hi) + (enc_u8(lo) + r1));
    lemma_p_u8(hi, enc_u8(lo) + r1);
    lemma_p_u8(lo, r1);
    lemma_p_props_hi(p, props_lo_bytes(p) + rest);
    lemma_p_props_lo(p, rest);
    assert(assemble_props(props_hi_of(p), props_lo_of(p)) == p);
}

// ---------------------------------------------------------------------------
// Per-method round trips
// ---------------------------------------------------------------------------


#[verifier::spinoff_prover]
#[verifier::rlimit(100)]
proof fn lemma_pm_connection_start_a(
    version_major: u8,
    version_minor: u8,
    server_properties: Seq<TableEntryV>,
    mechanisms: Seq<u8>,
    rest: Seq<u8>,
)
    requires
        table_wf(server_properties),
        mechanisms.len() < 0x1_0000_0000,
    ensures
        pm_connection_start_a(enc_u8(version_major) + (enc_u8(version_minor)
            + (enc_table(server_properties) + (enc_longstr(mechanisms) + rest))))
            == Some(((version_major, version_minor, server_properties, mechanisms), rest)),
{
    let r3 = enc_longstr(mechanisms) + rest;
    let r2 = enc_table(server_properties) + r3;
    let r1 = enc_u8(version_minor) + r2;
    lemma_p_u8(version_major, r1);
    lemma_p_u8(version_minor, r2);
    lemma_p_table(server_properties, r3);
    lemma_p_longstr(mechanisms, rest);
}

#[verifier::spinoff_prover]
#[verifier::rlimit(100)]
proof fn lemma_pm_connection_start(
    version_major: u8,
    version_minor: u8,
    server_properties: Seq<TableEntryV>,
    mechanisms: Seq<u8>,
    locales: Seq<u8>,
    rest: Seq<u8>,
)
    requires
        table_wf(server_properties),
        mechanisms.len() < 0x1_0000_0000,
        locales.len() < 0x1_0000_0000,
    ensures
        ({
            let m = MethodV::ConnectionStart {
                version_major, version_minor, server_properties, mechanisms, locales,
            };
            pm_connection_start(args_bytes(m) + rest) == Some((m, rest))
        }),
{
    let m = MethodV::ConnectionStart {
        version_major, version_minor, server_properties, mechanisms, locales,
    };
    let r4 = enc_longstr(locales) + rest;
    let r3 = enc_longstr(mechanisms) + r4;
    let r2 = enc_table(server_properties) + r3;
    let r1 = enc_u8(version_minor) + r2;
    let chain0 = enc_u8(version_major) + r1;
    let l1 = enc_u8(version_major);
    let l2 = l1 + enc_u8(version_minor);
    let l3 = l2 + enc_table(server_properties);
    let l4 = l3 + enc_longstr(mechanisms);
    assert(args_bytes(m) == l4 + enc_longstr(locales));
    seq_assoc(l4, enc_longstr(locales), rest);
    seq_assoc(l3, enc_longstr(mechanisms), r4);
    seq_assoc(l2, enc_table(server_properties), r3);
    seq_assoc(l1, enc_u8(version_minor), r2);
    assert(args_bytes(m) + rest == chain0);
    lemma_pm_connection_start_a(version_major, version_minor, server_properties, mechanisms, r4);
    assert(pm_connection_start_a(chain0)
        == Some(((version_major, version_minor, server_properties, mechanisms), r4)));
    lemma_p_longstr(locales, rest);
}

#[verifier::spinoff_prover]
#[verifier::rlimit(100)]
proof fn lemma_pm_connection_start_ok(
    client_properties: Seq<TableEntryV>,
    mechanism: Seq<u8>,
    response: Seq<u8>,
    locale: Seq<u8>,
    rest: Seq<u8>,
)
    requires
        table_wf(client_properties),
        mechanism.len() <= 255,
        response.len() < 0x1_0000_0000,
        locale.len() <= 255,
    ensures
        ({
            let m = MethodV::ConnectionStartOk { client_properties, mechanism, response, locale };
            parse_args(10, 11, args_bytes(m) + rest) == Some((m, rest))
        }),
{
    let m = MethodV::ConnectionStartOk { client_properties, mechanism, response, locale };
    let r3 = enc_shortstr(locale) + rest;
    let r2 = enc_longstr(response) + r3;
    let r1 = enc_shortstr(mechanism) + r2;
    let chain0 = enc_table(client_properties) + r1;
    let l1 = enc_table(client_properties);
    let l2 = l1 + enc_shortstr(mechanism);
    let l3 = l2 + enc_longstr(response);
    let l4 = l3 + enc_shortstr(locale);
    assert(args_bytes(m) == l4);
    seq_assoc(l3, enc_shortstr(locale), rest);
    seq_assoc(l2, enc_longstr(response), r3);
    seq_assoc(l1, enc_shortstr(mechanism), r2);
    assert(args_bytes(m) + rest == chain0);
    lemma_p_table(client_properties, r1);
    lemma_p_shortstr(mechanism, r2);
    lemma_p_longstr(response, r3);
    lemma_p_shortstr(locale, rest);
}

#[verifier::spinoff_prover]
#[verifier::rlimit(100)]
proof fn lemma_pm_connection_tune(
    channel_max: u16,
    frame_max: u32,
    heartbeat: u16,
    rest: Seq<u8>,
)
    ensures
        ({
            let m = MethodV::ConnectionTune { channel_max, frame_max, heartbeat };
            parse_args(10, 30, args_bytes(m) + rest) == Some((m, rest))
        }),
{
    let m = MethodV::ConnectionTune { channel_max, frame_max, heartbeat };
    let r2 = enc_u16(heartbeat) + rest;
    let r1 = enc_u32(frame_max) + r2;
    let chain0 = enc_u16(channel_max) + r1;
    let l1 = enc_u16(channel_max);
    let l2 = l1 + enc_u32(frame_max);
    let l3 = l2 + enc_u16(heartbeat);
    assert(args_bytes(m) == l3);
    seq_assoc(l2, enc_u16(heartbeat), rest);
    seq_assoc(l1, enc_u32(frame_max), r2);
    assert(args_bytes(m) + rest == chain0);
    lemma_p_u16(channel_max, r1);
    lemma_p_u32(frame_max, r2);
    lemma_p_u16(heartbeat, rest);
}

#[verifier::spinoff_prover]
#[verifier::rlimit(100)]
proof fn lemma_pm_connection_tune_ok(
    channel_max: u16,
    frame_max: u32,
    heartbeat: u16,
    rest: Seq<u8>,
)
    ensures
        ({
            let m = MethodV::ConnectionTuneOk { channel_max, frame_max, heartbeat };
            parse_args(10, 31, args_bytes(m) + rest) == Some((m, rest))
        }),
{
    let m = MethodV::ConnectionTuneOk { channel_max, frame_max, heartbeat };
    let r2 = enc_u16(heartbeat) + rest;
    let r1 = enc_u32(frame_max) + r2;
    let chain0 = enc_u16(channel_max) + r1;
    let l1 = enc_u16(channel_max);
    let l2 = l1 + enc_u32(frame_max);
    let l3 = l2 + enc_u16(heartbeat);
    assert(args_bytes(m) == l3);
    seq_assoc(l2, enc_u16(heartbeat), rest);
    seq_assoc(l1, enc_u32(frame_max), r2);
    assert(args_bytes(m) + rest == chain0);
    lemma_p_u16(channel_max, r1);
    lemma_p_u32(frame_max, r2);
    lemma_p_u16(heartbeat, rest);
}

#[verifier::spinoff_prover]
#[verifier::rlimit(100)]
proof fn lemma_pm_connection_open(
    virtual_host: Seq<u8>,
    capabilities: Seq<u8>,
    insist: bool,
    rest: Seq<u8>,
)
    requires
        virtual_host.len() <= 255,
        capabilities.len() <= 255,
    ensures
        ({
            let m = MethodV::ConnectionOpen { virtual_host, capabilities, insist };
            parse_args(10, 40, args_bytes(m) + rest) == Some((m, rest))
        }),
{
    let m = MethodV::ConnectionOpen { virtual_host, capabilities, insist };
    let r2 = enc_u8(bits_byte(insist, false, false, false, false, false, false, false)) + rest;
    let r1 = enc_shortstr(capabilities) + r2;
    let chain0 = enc_shortstr(virtual_host) + r1;
    let l1 = enc_shortstr(virtual_host);
    let l2 = l1 + enc_shortstr(capabilities);
    let l3 = l2 + enc_u8(bits_byte(insist, false, false, false, false, false, false, false));
    assert(args_bytes(m) == l3);
    seq_assoc(l2, enc_u8(bits_byte(insist, false, false, false, false, false, false, false)), rest);
    seq_assoc(l1, enc_shortstr(capabilities), r2);
    assert(args_bytes(m) + rest == chain0);
    lemma_p_shortstr(virtual_host, r1);
    lemma_p_shortstr(capabilities, r2);
    lemma_p_u8(bits_byte(insist, false, false, false, false, false, false, false), rest);
    lemma_bits_byte(insist, false, false, false, false, false, false, false);
}

#[verifier::spinoff_prover]
#[verifier::rlimit(100)]
proof fn lemma_pm_connection_open_ok(
    known_hosts: Seq<u8>,
    rest: Seq<u8>,
)
    requires
        known_hosts.len() <= 255,
    ensures
        ({
            let m = MethodV::ConnectionOpenOk { known_hosts };
            parse_args(10, 41, args_bytes(m) + rest) == Some((m, rest))
        }),
{
    let m = MethodV::ConnectionOpenOk { known_hosts };
    let chain0 = enc_shortstr(known_hosts) + rest;
    assert(args_bytes(m) + rest == chain0);
    lemma_p_shortstr(known_hosts, rest);
}

#[verifier::spinoff_prover]
#[verifier::rlimit(100)]
proof fn lemma_pm_connection_close(
    reply_code: u16,
    reply_text: Seq<u8>,
    class_id: u16,
    method_id: u16,
    rest: Seq<u8>,
)
    requires
        reply_text.len() <= 255,
    ensures
        ({
            let m = MethodV::ConnectionClose { reply_code, reply_text, class_id, method_id };
            parse_args(10, 50, args_bytes(m) + rest) == Some((m, rest))
        }),
{
    let m = MethodV::ConnectionClose { reply_code, reply_text, class_id, method_id };
    let r3 = enc_u16(method_id) + rest;
    let r2 = enc_u16(class_id) + r3;
    let r1 = enc_shortstr(reply_text) + r2;
    let chain0 = enc_u16(reply_code) + r1;
    let l1 = enc_u16(reply_code);
    let l2 = l1 + enc_shortstr(reply_text);
    let l3 = l2 + enc_u16(class_id);
    let l4 = l3 + enc_u16(method_id);
    assert(args_bytes(m) == l4);
    seq_assoc(l3, enc_u16(method_id), rest);
    seq_assoc(l2, enc_u16(class_id), r3);
    seq_assoc(l1, enc_shortstr(reply_text), r2);
    assert(args_bytes(m) + rest == chain0);
    lemma_p_u16(reply_code, r1);
    lemma_p_shortstr(reply_text, r2);
    lemma_p_u16(class_id, r3);
    lemma_p_u16(method_id, rest);
}

#[verifier::spinoff_prover]
#[verifier::rlimit(100)]
proof fn lemma_pm_channel_open(
    out_of_band: Seq<u8>,
    rest: Seq<u8>,
)
    requires
        out_of_band.len() <= 255,
    ensures
        ({
            let m = MethodV::ChannelOpen { out_of_band };
            parse_args(20, 10, args_bytes(m) + rest) == Some((m, rest))
        }),
{
    let m = MethodV::ChannelOpen { out_of_band };
    let chain0 = enc_shortstr(out_of_band) + rest;
    assert(args_bytes(m) + rest == chain0);
    lemma_p_shortstr(out_of_band, rest);
}

#[verifier::spinoff_prover]
#[verifier::rlimit(100)]
proof fn lemma_pm_channel_open_ok(
    channel_id: Seq<u8>,
    rest: Seq<u8>,
)
    requires
        channel_id.len() < 0x1_0000_0000,
    ensures
        ({
            let m = MethodV::ChannelOpenOk { channel_id };
            parse_args(20, 11, args_bytes(m) + rest) == Some((m, rest))
        }),
{
    let m = MethodV::ChannelOpenOk { channel_id };
    let chain0 = enc_longstr(channel_id) + rest;
    assert(args_bytes(m) + rest == chain0);
    lemma_p_longstr(channel_id, rest);
}

#[verifier::spinoff_prover]
#[verifier::rlimit(100)]
proof fn lemma_pm_channel_flow(
    active: bool,
    rest: Seq<u8>,
)
    ensures
        ({
            let m = MethodV::ChannelFlow { active };
            parse_args(20, 20, args_bytes(m) + rest) == Some((m, rest))
        }),
{
    let m = MethodV::ChannelFlow { active };
    let chain0 = enc_u8(bits_byte(active, false, false, false, false, false, false, false)) + rest;
    assert(args_bytes(m) + rest == chain0);
    lemma_p_u8(bits_byte(active, false, false, false, false, false, false, false), rest);
    lemma_bits_byte(active, false, false, false, false, false, false, false);
}

#[verifier::spinoff_prover]
#[verifier::rlimit(100)]
proof fn lemma_pm_channel_flow_ok(
    active: bool,
    rest: Seq<u8>,
)
    ensures
        ({
            let m = MethodV::ChannelFlowOk { active };
            parse_args(20, 21, args_bytes(m) + rest) == Some((m, rest))
        }),
{
    let m = MethodV::ChannelFlowOk { active };
    let chain0 = enc_u8(bits_byte(active, false, false, false, false, false, false, false)) + rest;
    assert(args_bytes(m) + rest == chain0);
    lemma_p_u8(bits_byte(active, false, false, false, false, false, false, false), rest);
    lemma_bits_byte(active, false, false, false, false, false, false, false);
}

#[verifier::spinoff_prover]
#[verifier::rlimit(100)]
proof fn lemma_pm_channel_close(
    reply_code: u16,
    reply_text: Seq<u8>,
    class_id: u16,
    method_id: u16,
    rest: Seq<u8>,
)
    requires
        reply_text.len() <= 255,
    ensures
        ({
            let m = MethodV::ChannelClose { reply_code, reply_text, class_id, method_id };
            parse_args(20, 40, args_bytes(m) + rest) == Some((m, rest))
        }),
{
    let m = MethodV::ChannelClose { reply_code, reply_text, class_id, method_id };
    let r3 = enc_u16(method_id) + rest;
    let r2 = enc_u16(class_id) + r3;
    let r1 = enc_shortstr(reply_text) + r2;
    let chain0 = enc_u16(reply_code) + r1;
    let l1 = enc_u16(reply_code);
    let l2 = l1 + enc_shortstr(reply_text);
    let l3 = l2 + enc_u16(class_id);
    let l4 = l3 + enc_u16(method_id);
    assert(args_bytes(m) == l4);
    seq_assoc(l3, enc_u16(method_id), rest);
    seq_assoc(l2, enc_u16(class_id), r3);
    seq_assoc(l1, enc_shortstr(reply_text), r2);
    assert(args_bytes(m) + rest == chain0);
    lemma_p_u16(reply_code, r1);
    lemma_p_shortstr(reply_text, r2);
    lemma_p_u16(class_id, r3);
    lemma_p_u16(method_id, rest);
}

#[verifier::spinoff_prover]
#[verifier::rlimit(100)]
proof fn lemma_pm_access_request(
    realm: Seq<u8>,
    exclusive: bool,
    passive: bool,
    active: bool,
    write: bool,
    read: bool,
    rest: Seq<u8>,
)
    requires
        realm.len() <= 255,
    ensures
        ({
            let m = MethodV::AccessRequest { realm, exclusive, passive, active, write, read };
            parse_args(30, 10, args_bytes(m) + rest) == Some((m, rest))
        }),
{
    let m = MethodV::AccessRequest { realm, exclusive, passive, active, write, read };
    let r1 = enc_u8(bits_byte(exclusive, passive, active, write, read, false, false, false)) + rest;
    let chain0 = enc_shortstr(realm) + r1;
    let l1 = enc_shortstr(realm);
    let l2 = l1 + enc_u8(bits_byte(exclusive, passive, active, write, read, false, false, false));
    assert(args_bytes(m) == l2);
    seq_assoc(l1, enc_u8(bits_byte(exclusive, passive, active, write, read, false, false, false)), rest);
    assert(args_bytes(m) + rest == chain0);
    lemma_p_shortstr(realm, r1);
    lemma_p_u8(bits_byte(exclusive, passive, active, write, read, false, false, false), rest);
    lemma_bits_byte(exclusive, passive, active, write, read, false, false, false);
}

#[verifier::spinoff_prover]
#[verifier::rlimit(100)]
proof fn lemma_pm_access_request_ok(
    ticket: u16,
    rest: Seq<u8>,
)
    ensures
        ({
            let m = MethodV::AccessRequestOk { ticket };
            parse_args(30, 11, args_bytes(m) + rest) == Some((m, rest))
        }),
{
    let m = MethodV::AccessRequestOk { ticket };
    let chain0 = enc_u16(ticket) + rest;
    assert(args_bytes(m) + rest == chain0);
    lemma_p_u16(ticket, rest);
}

#[verifier::spinoff_prover]
#[verifier::rlimit(100)]
proof fn lemma_pm_exchange_declare(
    ticket: u16,
    exchange: Seq<u8>,
    exchange_type: Seq<u8>,
    passive: bool,
    durable: bool,
    auto_delete: bool,
    internal: bool,
    nowait: bool,
    arguments: Seq<TableEntryV>,
    rest: Seq<u8>,
)
    requires
        exchange.len() <= 255,
        exchange_type.len() <= 255,
        table_wf(arguments),
    ensures
        ({
            let m = MethodV::ExchangeDeclare { ticket, exchange, exchange_type, passive, durable, auto_delete, internal, nowait, arguments };
            parse_args(40, 10, args_bytes(m) + rest) == Some((m, rest))
        }),
{
    let m = MethodV::ExchangeDeclare { ticket, exchange, exchange_type, passive, durable, auto_delete, internal, nowait, arguments };
    let r4 = enc_table(arguments) + rest;
    let r3 = enc_u8(bits_byte(passive, durable, auto_delete, internal, nowait, false, false, false)) + r4;
    let r2 = enc_shortstr(exchange_type) + r3;
    let r1 = enc_shortstr(exchange) + r2;
    let chain0 = enc_u16(ticket) + r1;
    let l1 = enc_u16(ticket);
    let l2 = l1 + enc_shortstr(exchange);
    let l3 = l2 + enc_shortstr(exchange_type);
    let l4 = l3 + enc_u8(bits_byte(passive, durable, auto_delete, internal, nowait, false, false, false));
    let l5 = l4 + enc_table(arguments);
    assert(args_bytes(m) == l5);
    seq_assoc(l4, enc_table(arguments), rest);
    seq_assoc(l3, enc_u8(bits_byte(passive, durable, auto_delete, internal, nowait, false, false, false)), r4);
    seq_assoc(l2, enc_shortstr(exchange_type), r3);
    seq_assoc(l1, enc_shortstr(exchange), r2);
    assert(args_bytes(m) + rest == chain0);
    lemma_p_u16(ticket, r1);
    lemma_p_shortstr(exchange, r2);
    lemma_p_shortstr(exchange_type, r3);
    lemma_p_u8(bits_byte(passive, durable, auto_delete, internal, nowait, false, false, false), r4);
    lemma_bits_byte(passive, durable, auto_delete, internal, nowait, false, false, false);
    lemma_p_table(arguments, rest);
}

#[verifier::spinoff_prover]
#[verifier::rlimit(100)]
proof fn lemma_pm_exchange_delete(
    ticket: u16,
    exchange: Seq<u8>,
    if_unused: bool,
    nowait: bool,
    rest: Seq<u8>,
)
    requires
        exchange.len() <= 255,
    ensures
        ({
            let m = MethodV::ExchangeDelete { ticket, exchange, if_unused, nowait };
            parse_args(40, 20, args_bytes(m) + rest) == Some((m, rest))
        }),
{
    let m = MethodV::ExchangeDelete { ticket, exchange, if_unused, nowait };
    let r2 = enc_u8(bits_byte(if_unused, nowait, false, false, false, false, false, false)) + rest;
    let r1 = enc_shortstr(exchange) + r2;
    let chain0 = enc_u16(ticket) + r1;
    let l1 = enc_u16(ticket);
    let l2 = l1 + enc_shortstr(exchange);
    let l3 = l2 + enc_u8(bits_byte(if_unused, nowait, false, false, false, false, false, false));
    assert(args_bytes(m) == l3);
    seq_assoc(l2, enc_u8(bits_byte(if_unused, nowait, false, false, false, false, false, false)), rest);
    seq_assoc(l1, enc_shortstr(exchange), r2);
    assert(args_bytes(m) + rest == chain0);
    lemma_p_u16(ticket, r1);
    lemma_p_shortstr(exchange, r2);
    lemma_p_u8(bits_byte(if_unused, nowait, false, false, false, false, false, false), rest);
    lemma_bits_byte(if_unused, nowait, false, false, false, false, false, false);
}



#[verifier::spinoff_prover]
#[verifier::rlimit(100)]
proof fn lemma_pm_queue_declare(
    ticket: u16,
    queue: Seq<u8>,
    passive: bool,
    durable: bool,
    exclusive: bool,
    auto_delete: bool,
    nowait: bool,
    arguments: Seq<TableEntryV>,
    rest: Seq<u8>,
)
    requires
        queue.len() <= 255,
        table_wf(arguments),
    ensures
        ({
            let m = MethodV::QueueDeclare { ticket, queue, passive, durable, exclusive, auto_delete, nowait, arguments };
            parse_args(50, 10, args_bytes(m) + rest) == Some((m, rest))
        }),
{
    let m = MethodV::QueueDeclare { ticket, queue, passive, durable, exclusive, auto_delete, nowait, arguments };
    let r3 = enc_table(arguments) + rest;
    let r2 = enc_u8(bits_byte(passive, durable, exclusive, auto_delete, nowait, false, false, false)) + r3;
    let r1 = enc_shortstr(queue) + r2;
    let chain0 = enc_u16(ticket) + r1;
    let l1 = enc_u16(ticket);
    let l2 = l1 + enc_shortstr(queue);
    let l3 = l2 + enc_u8(bits_byte(passive, durable, exclusive, auto_delete, nowait, false, false, false));
    let l4 = l3 + enc_table(arguments);
    assert(args_bytes(m) == l4);
    seq_assoc(l3, enc_table(arguments), rest);
    seq_assoc(l2, enc_u8(bits_byte(passive, durable, exclusive, auto_delete, nowait, false, false, false)), r3);
    seq_assoc(l1, enc_shortstr(queue), r2);
    assert(args_bytes(m) + rest == chain0);
    lemma_p_u16(ticket, r1);
    lemma_p_shortstr(queue, r2);
    lemma_p_u8(bits_byte(passive, durable, exclusive, auto_delete, nowait, false, false, false), r3);
    lemma_bits_byte(passive, durable, exclusive, auto_delete, nowait, false, false, false);
    lemma_p_table(arguments, rest);
}

#[verifier::spinoff_prover]
#[verifier::rlimit(100)]
proof fn lemma_pm_queue_declare_ok(
    queue: Seq<u8>,
    message_count: u32,
    consumer_count: u32,
    rest: Seq<u8>,
)
    requires
        queue.len() <= 255,
    ensures
        ({
            let m = MethodV::QueueDeclareOk { queue, message_count, consumer_count };
            parse_args(50, 11, args_bytes(m) + rest) == Some((m, rest))
        }),
{
    let m = MethodV::QueueDeclareOk { queue, message_count, consumer_count };
    let r2 = enc_u32(consumer_count) + rest;
    let r1 = enc_u32(message_count) + r2;
    let chain0 = enc_shortstr(queue) + r1;
    let l1 = enc_shortstr(queue);
    let l2 = l1 + enc_u32(message_count);
    let l3 = l2 + enc_u32(consumer_count);
    assert(args_bytes(m) == l3);
    seq_assoc(l2, enc_u32(consumer_count), rest);
    seq_assoc(l1, enc_u32(message_count), r2);
    assert(args_bytes(m) + rest == chain0);
    lemma_p_shortstr(queue, r1);
    lemma_p_u32(message_count, r2);
    lemma_p_u32(consumer_count, rest);
}


#[verifier::spinoff_prover]
#[verifier::rlimit(100)]
proof fn lemma_pm_queue_purge(
    ticket: u16,
    queue: Seq<u8>,
    nowait: bool,
    rest: Seq<u8>,
)
    requires
        queue.len() <= 255,
    ensures
        ({
            let m = MethodV::QueuePurge { ticket, queue, nowait };
            parse_args(50, 30, args_bytes(m) + rest) == Some((m, rest))
        }),
{
    let m = MethodV::QueuePurge { ticket, queue, nowait };
    let r2 = enc_u8(bits_byte(nowait, false, false, false, false, false, false, false)) + rest;
    let r1 = enc_shortstr(queue) + r2;
    let chain0 = enc_u16(ticket) + r1;
    let l1 = enc_u16(ticket);
    let l2 = l1 + enc_shortstr(queue);
    let l3 = l2 + enc_u8(bits_byte(nowait, false, false, false, false, false, false, false));
    assert(args_bytes(m) == l3);
    seq_assoc(l2, enc_u8(bits_byte(nowait, false, false, false, false, false, false, false)), rest);
    seq_assoc(l1, enc_shortstr(queue), r2);
    assert(args_bytes(m) + rest == chain0);
    lemma_p_u16(ticket, r1);
    lemma_p_shortstr(queue, r2);
    lemma_p_u8(bits_byte(nowait, false, false, false, false, false, false, false), rest);
    lemma_bits_byte(nowait, false, false, false, false, false, false, false);
}

#[verifier::spinoff_prover]
#[verifier::rlimit(100)]
proof fn lemma_pm_queue_purge_ok(
    message_count: u32,
    rest: Seq<u8>,
)
    ensures
        ({
            let m = MethodV::QueuePurgeOk { message_count };
            parse_args(50, 31, args_bytes(m) + rest) == Some((m, rest))
        }),
{
    let m = MethodV::QueuePurgeOk { message_count };
    let chain0 = enc_u32(message_count) + rest;
    assert(args_bytes(m) + rest == chain0);
    lemma_p_u32(message_count, rest);
}


#[verifier::spinoff_prover]
#[verifier::rlimit(100)]
proof fn lemma_pm_queue_delete_ok(
    message_count: u32,
    rest: Seq<u8>,
)
    ensures
        ({
            let m = MethodV::QueueDeleteOk { message_count };
            parse_args(50, 41, args_bytes(m) + rest) == Some((m, rest))
        }),
{
    let m = MethodV::QueueDeleteOk { message_count };
    let chain0 = enc_u32(message_count) + rest;
    assert(args_bytes(m) + rest == chain0);
    lemma_p_u32(message_count, rest);
}


#[verifier::spinoff_prover]
#[verifier::rlimit(100)]
proof fn lemma_pm_basic_qos(
    prefetch_size: u32,
    prefetch_count: u16,
    global: bool,
    rest: Seq<u8>,
)
    ensures
        ({
            let m = MethodV::BasicQos { prefetch_size, prefetch_count, global };
            parse_args(60, 10, args_bytes(m) + rest) == Some((m, rest))
        }),
{
    let m = MethodV::BasicQos { prefetch_size, prefetch_count, global };
    let r2 = enc_u8(bits_byte(global, false, false, false, false, false, false, false)) + rest;
    let r1 = enc_u16(prefetch_count) + r2;
    let chain0 = enc_u32(prefetch_size) + r1;
    let l1 = enc_u32(prefetch_size);
    let l2 = l1 + enc_u16(prefetch_count);
    let l3 = l2 + enc_u8(bits_byte(global, false, false, false, false, false, false, false));
    assert(args_bytes(m) == l3);
    seq_assoc(l2, enc_u8(bits_byte(global, false, false, false, false, false, false, false)), rest);
    seq_assoc(l1, enc_u16(prefetch_count), r2);
    assert(args_bytes(m) + rest == chain0);
    lemma_p_u32(prefetch_size, r1);
    lemma_p_u16(prefetch_count, r2);
    lemma_p_u8(bits_byte(global, false, false, false, false, false, false, false), rest);
    lemma_bits_byte(global, false, false, false, false, false, false, false);
}


#[verifier::spinoff_prover]
#[verifier::rlimit(100)]
proof fn lemma_pm_basic_consume_ok(
    consumer_tag: Seq<u8>,
    rest: Seq<u8>,
)
    requires
        consumer_tag.len() <= 255,
    ensures
        ({
            let m = MethodV::BasicConsumeOk { consumer_tag };
            parse_args(60, 21, args_bytes(m) + rest) == Some((m, rest))
        }),
{
    let m = MethodV::BasicConsumeOk { consumer_tag };
    let chain0 = enc_shortstr(consumer_tag) + rest;
    assert(args_bytes(m) + rest == chain0);
    lemma_p_shortstr(consumer_tag, rest);
}

#[verifier::spinoff_prover]
#[verifier::rlimit(100)]
proof fn lemma_pm_basic_publish(
    ticket: u16,
    exchange: Seq<u8>,
    routing_key: Seq<u8>,
    mandatory: bool,
    immediate: bool,
    rest: Seq<u8>,
)
    requires
        exchange.len() <= 255,
        routing_key.len() <= 255,
    ensures
        ({
            let m = MethodV::BasicPublish { ticket, exchange, routing_key, mandatory, immediate };
            parse_args(60, 40, args_bytes(m) + rest) == Some((m, rest))
        }),
{
    let m = MethodV::BasicPublish { ticket, exchange, routing_key, mandatory, immediate };
    let r3 = enc_u8(bits_byte(mandatory, immediate, false, false, false, false, false, false)) + rest;
    let r2 = enc_shortstr(routing_key) + r3;
    let r1 = enc_shortstr(exchange) + r2;
    let chain0 = enc_u16(ticket) + r1;
    let l1 = enc_u16(ticket);
    let l2 = l1 + enc_shortstr(exchange);
    let l3 = l2 + enc_shortstr(routing_key);
    let l4 = l3 + enc_u8(bits_byte(mandatory, immediate, false, false, false, false, false, false));
    assert(args_bytes(m) == l4);
    seq_assoc(l3, enc_u8(bits_byte(mandatory, immediate, false, false, false, false, false, false)), rest);
    seq_assoc(l2, enc_shortstr(routing_key), r3);
    seq_assoc(l1, enc_shortstr(exchange), r2);
    assert(args_bytes(m) + rest == chain0);
    lemma_p_u16(ticket, r1);
    lemma_p_shortstr(exchange, r2);
    lemma_p_shortstr(routing_key, r3);
    lemma_p_u8(bits_byte(mandatory, immediate, false, false, false, false, false, false), rest);
    lemma_bits_byte(mandatory, immediate, false, false, false, false, false, false);
}

#[verifier::spinoff_prover]
#[verifier::rlimit(100)]
proof fn lemma_pm_basic_return(
    reply_code: u16,
    reply_text: Seq<u8>,
    exchange: Seq<u8>,
    routing_key: Seq<u8>,
    rest: Seq<u8>,
)
    requires
        reply_text.len() <= 255,
        exchange.len() <= 255,
        routing_key.len() <= 255,
    ensures
        ({
            let m = MethodV::BasicReturn { reply_code, reply_text, exchange, routing_key };
            parse_args(60, 50, args_bytes(m) + rest) == Some((m, rest))
        }),
{
    let m = MethodV::BasicReturn { reply_code, reply_text, exchange, routing_key };
    let r3 = enc_shortstr(routing_key) + rest;
    let r2 = enc_shortstr(exchange) + r3;
    let r1 = enc_shortstr(reply_text) + r2;
    let chain0 = enc_u16(reply_code) + r1;
    let l1 = enc_u16(reply_code);
    let l2 = l1 + enc_shortstr(reply_text);
    let l3 = l2 + enc_shortstr(exchange);
    let l4 = l3 + enc_shortstr(routing_key);
    assert(args_bytes(m) == l4);
    seq_assoc(l3, enc_shortstr(routing_key), rest);
    seq_assoc(l2, enc_shortstr(exchange), r3);
    seq_assoc(l1, enc_shortstr(reply_text), r2);
    assert(args_bytes(m) + rest == chain0);
    lemma_p_u16(reply_code, r1);
    lemma_p_shortstr(reply_text, r2);
    lemma_p_shortstr(exchange, r3);
    lemma_p_shortstr(routing_key, rest);
}

#[verifier::spinoff_prover]
#[verifier::rlimit(100)]
proof fn lemma_pm_basic_deliver(
    consumer_tag: Seq<u8>,
    delivery_tag: u64,
    redelivered: bool,
    exchange: Seq<u8>,
    routing_key: Seq<u8>,
    rest: Seq<u8>,
)
    requires
        consumer_tag.len() <= 255,
        exchange.len() <= 255,
        routing_key.len() <= 255,
    ensures
        ({
            let m = MethodV::BasicDeliver { consumer_tag, delivery_tag, redelivered, exchange, routing_key };
            parse_args(60, 60, args_bytes(m) + rest) == Some((m, rest))
        }),
{
    let m = MethodV::BasicDeliver { consumer_tag, delivery_tag, redelivered, exchange, routing_key };
    let r4 = enc_shortstr(routing_key) + rest;
    let r3 = enc_shortstr(exchange) + r4;
    let r2 = enc_u8(bits_byte(redelivered, false, false, false, false, false, false, false)) + r3;
    let r1 = enc_u64(delivery_tag) + r2;
    let chain0 = enc_shortstr(consumer_tag) + r1;
    let l1 = enc_shortstr(consumer_tag);
    let l2 = l1 + enc_u64(delivery_tag);
    let l3 = l2 + enc_u8(bits_byte(redelivered, false, false, false, false, false, false, false));
    let l4 = l3 + enc_shortstr(exchange);
    let l5 = l4 + enc_shortstr(routing_key);
    assert(args_bytes(m) == l5);
    seq_assoc(l4, enc_shortstr(routing_key), rest);
    seq_assoc(l3, enc_shortstr(exchange), r4);
    seq_assoc(l2, enc_u8(bits_byte(redelivered, false, false, false, false, false, false, false)), r3);
    seq_assoc(l1, enc_u64(delivery_tag), r2);
    assert(args_bytes(m) + rest == chain0);
    lemma_p_shortstr(consumer_tag, r1);
    lemma_p_u64(delivery_tag, r2);
    lemma_p_u8(bits_byte(redelivered, false, false, false, false, false, false, false), r3);
    lemma_bits_byte(redelivered, false, false, false, false, false, false, false);
    lemma_p_shortstr(exchange, r4);
    lemma_p_shortstr(routing_key, rest);
}

#[verifier::spinoff_prover]
#[verifier::rlimit(100)]
proof fn lemma_pm_basic_get(
    ticket: u16,
    queue: Seq<u8>,
    no_ack: bool,
    rest: Seq<u8>,
)
    requires
        queue.len() <= 255,
    ensures
        ({
            let m = MethodV::BasicGet { ticket, queue, no_ack };
            parse_args(60, 70, args_bytes(m) + rest) == Some((m, rest))
        }),
{
    let m = MethodV::BasicGet { ticket, queue, no_ack };
    let r2 = enc_u8(bits_byte(no_ack, false, false, false, false, false, false, false)) + rest;
    let r1 = enc_shortstr(queue) + r2;
    let chain0 = enc_u16(ticket) + r1;
    let l1 = enc_u16(ticket);
    let l2 = l1 + enc_shortstr(queue);
    let l3 = l2 + enc_u8(bits_byte(no_ack, false, false, false, false, false, false, false));
    assert(args_bytes(m) == l3);
    seq_assoc(l2, enc_u8(bits_byte(no_ack, false, false, false, false, false, false, false)), rest);
    seq_assoc(l1, enc_shortstr(queue), r2);
    assert(args_bytes(m) + rest == chain0);
    lemma_p_u16(ticket, r1);
    lemma_p_shortstr(queue, r2);
    lemma_p_u8(bits_byte(no_ack, false, false, false, false, false, false, false), rest);
    lemma_bits_byte(no_ack, false, false, false, false, false, false, false);
}


#[verifier::spinoff_prover]
#[verifier::rlimit(100)]
proof fn lemma_pm_basic_get_empty(
    cluster_id: Seq<u8>,
    rest: Seq<u8>,
)
    requires
        cluster_id.len() <= 255,
    ensures
        ({
            let m = MethodV::BasicGetEmpty { cluster_id };
            parse_args(60, 72, args_bytes(m) + rest) == Some((m, rest))
        }),
{
    let m = MethodV::BasicGetEmpty { cluster_id };
    let chain0 = enc_shortstr(cluster_id) + rest;
    assert(args_bytes(m) + rest == chain0);
    lemma_p_shortstr(cluster_id, rest);
}

#[verifier::spinoff_prover]
#[verifier::rlimit(100)]
proof fn lemma_pm_basic_ack(
    delivery_tag: u64,
    multiple: bool,
    rest: Seq<u8>,
)
    ensures
        ({
            let m = MethodV::BasicAck { delivery_tag, multiple };
            parse_args(60, 80, args_bytes(m) + rest) == Some((m, rest))
        }),
{
    let m = MethodV::BasicAck { delivery_tag, multiple };
    let r1 = enc_u8(bits_byte(multiple, false, false, false, false, false, false, false)) + rest;
    let chain0 = enc_u64(delivery_tag) + r1;
    let l1 = enc_u64(delivery_tag);
    let l2 = l1 + enc_u8(bits_byte(multiple, false, false, false, false, false, false, false));
    assert(args_bytes(m) == l2);
    seq_assoc(l1, enc_u8(bits_byte(multiple, false, false, false, false, false, false, false)), rest);
    assert(args_bytes(m) + rest == chain0);
    lemma_p_u64(delivery_tag, r1);
    lemma_p_u8(bits_byte(multiple, false, false, false, false, false, false, false), rest);
    lemma_bits_byte(multiple, false, false, false, false, false, false, false);
}

#[verifier::spinoff_prover]
#[verifier::rlimit(100)]
proof fn lemma_pm_basic_reject(
    delivery_tag: u64,
    requeue: bool,
    rest: Seq<u8>,
)
    ensures
        ({
            let m = MethodV::BasicReject { delivery_tag, requeue };
            parse_args(60, 90, args_bytes(m) + rest) == Some((m, rest))
        }),
{
    let m = MethodV::BasicReject { delivery_tag, requeue };
    let r1 = enc_u8(bits_byte(requeue, false, false, false, false, false, false, false)) + rest;
    let chain0 = enc_u64(delivery_tag) + r1;
    let l1 = enc_u64(delivery_tag);
    let l2 = l1 + enc_u8(bits_byte(requeue, false, false, false, false, false, false, false));
    assert(args_bytes(m) == l2);
    seq_assoc(l1, enc_u8(bits_byte(requeue, false, false, false, false, false, false, false)), rest);
    assert(args_bytes(m) + rest == chain0);
    lemma_p_u64(delivery_tag, r1);
    lemma_p_u8(bits_byte(requeue, false, false, false, false, false, false, false), rest);
    lemma_bits_byte(requeue, false, false, false, false, false, false, false);
}

#[verifier::spinoff_prover]
#[verifier::rlimit(100)]
proof fn lemma_pm_basic_nack(
    delivery_tag: u64,
    multiple: bool,
    requeue: bool,
    rest: Seq<u8>,
)
    ensures
        ({
            let m = MethodV::BasicNack { delivery_tag, multiple, requeue };
            parse_args(60, 120, args_bytes(m) + rest) == Some((m, rest))
        }),
{
    let m = MethodV::BasicNack { delivery_tag, multiple, requeue };
    let r1 = enc_u8(bits_byte(multiple, requeue, false, false, false, false, false, false)) + rest;
    let chain0 = enc_u64(delivery_tag) + r1;
    let l1 = enc_u64(delivery_tag);
    let l2 = l1 + enc_u8(bits_byte(multiple, requeue, false, false, false, false, false, false));
    assert(args_bytes(m) == l2);
    seq_assoc(l1, enc_u8(bits_byte(multiple, requeue, false, false, false, false, false, false)), rest);
    assert(args_bytes(m) + rest == chain0);
    lemma_p_u64(delivery_tag, r1);
    lemma_p_u8(bits_byte(multiple, requeue, false, false, false, false, false, false), rest);
    lemma_bits_byte(multiple, requeue, false, false, false, false, false, false);
}

#[verifier::spinoff_prover]
#[verifier::rlimit(100)]
proof fn lemma_pm_confirm_select(
    nowait: bool,
    rest: Seq<u8>,
)
    ensures
        ({
            let m = MethodV::ConfirmSelect { nowait };
            parse_args(85, 10, args_bytes(m) + rest) == Some((m, rest))
        }),
{
    let m = MethodV::ConfirmSelect { nowait };
    let chain0 = enc_u8(bits_byte(nowait, false, false, false, false, false, false, false)) + rest;
    assert(args_bytes(m) + rest == chain0);
    lemma_p_u8(bits_byte(nowait, false, false, false, false, false, false, false), rest);
    lemma_bits_byte(nowait, false, false, false, false, false, false, false);
}


#[verifier::spinoff_prover]
#[verifier::rlimit(100)]
proof fn lemma_pm_exchange_bind_a(
    ticket: u16,
    destination: Seq<u8>,
    source: Seq<u8>,
    routing_key: Seq<u8>,
    rest: Seq<u8>,
)
    requires
        destination.len() <= 255,
        source.len() <= 255,
        routing_key.len() <= 255,
    ensures
        pm_exchange_bind_a(enc_u16(ticket) + (enc_shortstr(destination)
            + (enc_shortstr(source) + (enc_shortstr(routing_key) + rest))))
            == Some(((ticket, destination, source, routing_key), rest)),
{
    let r3 = enc_shortstr(routing_key) + rest;
    let r2 = enc_shortstr(source) + r3;
    let r1 = enc_shortstr(destination) + r2;
    lemma_p_u16(ticket, r1);
    lemma_p_shortstr(destination, r2);
    lemma_p_shortstr(source, r3);
    lemma_p_shortstr(routing_key, rest);
}

#[verifier::spinoff_prover]
#[verifier::rlimit(100)]
proof fn lemma_pm_exchange_bind(
    ticket: u16,
    destination: Seq<u8>,
    source: Seq<u8>,
    routing_key: Seq<u8>,
    nowait: bool,
    arguments: Seq<TableEntryV>,
    rest: Seq<u8>,
)
    requires
        destination.len() <= 255,
        source.len() <= 255,
        routing_key.len() <= 255,
        table_wf(arguments),
    ensures
        ({
            let m = MethodV::ExchangeBind { ticket, destination, source, routing_key, nowait, arguments };
            pm_exchange_bind(args_bytes(m) + rest) == Some((m, rest))
        }),
{
    let m = MethodV::ExchangeBind { ticket, destination, source, routing_key, nowait, arguments };
    let fl = bits_byte(nowait, false, false, false, false, false, false, false);
    let r5 = enc_table(arguments) + rest;
    let r4 = enc_u8(fl) + r5;
    let r3 = enc_shortstr(routing_key) + r4;
    let r2 = enc_shortstr(source) + r3;
    let r1 = enc_shortstr(destination) + r2;
    let chain0 = enc_u16(ticket) + r1;
    let l1 = enc_u16(ticket);
    let l2 = l1 + enc_shortstr(destination);
    let l3 = l2 + enc_shortstr(source);
    let l4 = l3 + enc_shortstr(routing_key);
    let l5 = l4 + enc_u8(fl);
    assert(args_bytes(m) == l5 + enc_table(arguments));
    seq_assoc(l5, enc_table(arguments), rest);
    seq_assoc(l4, enc_u8(fl), r5);
    seq_assoc(l3, enc_shortstr(routing_key), r4);
    seq_assoc(l2, enc_shortstr(source), r3);
    seq_assoc(l1, enc_shortstr(destination), r2);
    assert(args_bytes(m) + rest == chain0);
    lemma_pm_exchange_bind_a(ticket, destination, source, routing_key, r4);
    assert(pm_exchange_bind_a(chain0) == Some(((ticket, destination, source, routing_key), r4)));
    lemma_p_u8(fl, r5);
    lemma_bits_byte(nowait, false, false, false, false, false, false, false);
    lemma_p_table(arguments, rest);
}

#[verifier::spinoff_prover]
#[verifier::rlimit(100)]
proof fn lemma_pm_exchange_unbind(
    ticket: u16,
    destination: Seq<u8>,
    source: Seq<u8>,
    routing_key: Seq<u8>,
    nowait: bool,
    arguments: Seq<TableEntryV>,
    rest: Seq<u8>,
)
    requires
        destination.len() <= 255,
        source.len() <= 255,
        routing_key.len() <= 255,
        table_wf(arguments),
    ensures
        ({
            let m = MethodV::ExchangeUnbind { ticket, destination, source, routing_key, nowait, arguments };
            pm_exchange_unbind(args_bytes(m) + rest) == Some((m, rest))
        }),
{
    let m = MethodV::ExchangeUnbind { ticket, destination, source, routing_key, nowait, arguments };
    let fl = bits_byte(nowait, false, false, false, false, false, false, false);
    let r5 = enc_table(arguments) + rest;
    let r4 = enc_u8(fl) + r5;
    let r3 = enc_shortstr(routing_key) + r4;
    let r2 = enc_shortstr(source) + r3;
    let r1 = enc_shortstr(destination) + r2;
    let chain0 = enc_u16(ticket) + r1;
    let l1 = enc_u16(ticket);
    let l2 = l1 + enc_shortstr(destination);
    let l3 = l2 + enc_shortstr(source);
    let l4 = l3 + enc_shortstr(routing_key);
    let l5 = l4 + enc_u8(fl);
    assert(args_bytes(m) == l5 + enc_table(arguments));
    seq_assoc(l5, enc_table(arguments), rest);
    seq_assoc(l4, enc_u8(fl), r5);
    seq_assoc(l3, enc_shortstr(routing_key), r4);
    seq_assoc(l2, enc_shortstr(source), r3);
    seq_assoc(l1, enc_shortstr(destination), r2);
    assert(args_bytes(m) + rest == chain0);
    lemma_pm_exchange_bind_a(ticket, destination, source, routing_key, r4);
    assert(pm_exchange_bind_a(chain0) == Some(((ticket, destination, source, routing_key), r4)));
    lemma_p_u8(fl, r5);
    lemma_bits_byte(nowait, false, false, false, false, false, false, false);
    lemma_p_table(arguments, rest);
}

#[verifier::spinoff_prover]
#[verifier::rlimit(100)]
proof fn lemma_pm_queue_bind_a(
    ticket: u16,
    queue: Seq<u8>,
    exchange: Seq<u8>,
    routing_key: Seq<u8>,
    rest: Seq<u8>,
)
    requires
        queue.len() <= 255,
        exchange.len() <= 255,
        routing_key.len() <= 255,
    ensures
        pm_queue_bind_a(enc_u16(ticket) + (enc_shortstr(queue)
            + (enc_shortstr(exchange) + (enc_shortstr(routing_key) + rest))))
            == Some(((ticket, queue, exchange, routing_key), rest)),
{
    let r3 = enc_shortstr(routing_key) + rest;
    let r2 = enc_shortstr(exchange) + r3;
    let r1 = enc_shortstr(queue) + r2;
    lemma_p_u16(ticket, r1);
    lemma_p_shortstr(queue, r2);
    lemma_p_shortstr(exchange, r3);
    lemma_p_shortstr(routing_key, rest);
}

#[verifier::spinoff_prover]
#[verifier::rlimit(100)]
proof fn lemma_pm_queue_bind(
    ticket: u16,
    queue: Seq<u8>,
    exchange: Seq<u8>,
    routing_key: Seq<u8>,
    nowait: bool,
    arguments: Seq<TableEntryV>,
    rest: Seq<u8>,
)
    requires
        queue.len() <= 255,
        exchange.len() <= 255,
        routing_key.len() <= 255,
        table_wf(arguments),
    ensures
        ({
            let m = MethodV::QueueBind { ticket, queue, exchange, routing_key, nowait, arguments };
            pm_queue_bind(args_bytes(m) + rest) == Some((m, rest))
        }),
{
    let m = MethodV::QueueBind { ticket, queue, exchange, routing_key, nowait, arguments };
    let fl = bits_byte(nowait, false, false, false, false, false, false, false);
    let r5 = enc_table(arguments) + rest;
    let r4 = enc_u8(fl) + r5;
    let r3 = enc_shortstr(routing_key) + r4;
    let r2 = enc_shortstr(exchange) + r3;
    let r1 = enc_shortstr(queue) + r2;
    let chain0 = enc_u16(ticket) + r1;
    let l1 = enc_u16(ticket);
    let l2 = l1 + enc_shortstr(queue);
    let l3 = l2 + enc_shortstr(exchange);
    let l4 = l3 + enc_shortstr(routing_key);
    let l5 = l4 + enc_u8(fl);
    assert(args_bytes(m) == l5 + enc_table(arguments));
    seq_assoc(l5, enc_table(arguments), rest);
    seq_assoc(l4, enc_u8(fl), r5);
    seq_assoc(l3, enc_shortstr(routing_key), r4);
    seq_assoc(l2, enc_shortstr(exchange), r3);
    seq_assoc(l1, enc_shortstr(queue), r2);
    assert(args_bytes(m) + rest == chain0);
    lemma_pm_queue_bind_a(ticket, queue, exchange, routing_key, r4);
    assert(pm_queue_bind_a(chain0) == Some(((ticket, queue, exchange, routing_key), r4)));
    lemma_p_u8(fl, r5);
    lemma_bits_byte(nowait, false, false, false, false, false, false, false);
    lemma_p_table(arguments, rest);
}

#[verifier::spinoff_prover]
#[verifier::rlimit(100)]
proof fn lemma_pm_queue_unbind(
    ticket: u16,
    queue: Seq<u8>,
    exchange: Seq<u8>,
    routing_key: Seq<u8>,
    arguments: Seq<TableEntryV>,
    rest: Seq<u8>,
)
    requires
        queue.len() <= 255,
        exchange.len() <= 255,
        routing_key.len() <= 255,
        table_wf(arguments),
    ensures
        ({
            let m = MethodV::QueueUnbind { ticket, queue, exchange, routing_key, arguments };
            pm_queue_unbind(args_bytes(m) + rest) == Some((m, rest))
        }),
{
    let m = MethodV::QueueUnbind { ticket, queue, exchange, routing_key, arguments };
    let r4 = enc_table(arguments) + rest;
    let r3 = enc_shortstr(routing_key) + r4;
    let r2 = enc_shortstr(exchange) + r3;
    let r1 = enc_shortstr(queue) + r2;
    let chain0 = enc_u16(ticket) + r1;
    let l1 = enc_u16(ticket);
    let l2 = l1 + enc_shortstr(queue);
    let l3 = l2 + enc_shortstr(exchange);
    let l4 = l3 + enc_shortstr(routing_key);
    assert(args_bytes(m) == l4 + enc_table(arguments));
    seq_assoc(l4, enc_table(arguments), rest);
    seq_assoc(l3, enc_shortstr(routing_key), r4);
    seq_assoc(l2, enc_shortstr(exchange), r3);
    seq_assoc(l1, enc_shortstr(queue), r2);
    assert(args_bytes(m) + rest == chain0);
    lemma_pm_queue_bind_a(ticket, queue, exchange, routing_key, r4);
    assert(pm_queue_bind_a(chain0) == Some(((ticket, queue, exchange, routing_key), r4)));
    lemma_p_table(arguments, rest);
}

#[verifier::spinoff_prover]
#[verifier::rlimit(100)]
proof fn lemma_pm_queue_delete(
    ticket: u16,
    queue: Seq<u8>,
    if_unused: bool,
    if_empty: bool,
    nowait: bool,
    rest: Seq<u8>,
)
    requires
        queue.len() <= 255,
    ensures
        ({
            let m = MethodV::QueueDelete { ticket, queue, if_unused, if_empty, nowait };
            parse_args(50, 40, args_bytes(m) + rest) == Some((m, rest))
        }),
{
    let m = MethodV::QueueDelete { ticket, queue, if_unused, if_empty, nowait };
    let fl = bits_byte(if_unused, if_empty, nowait, false, false, false, false, false);
    let r2 = enc_u8(fl) + rest;
    let r1 = enc_shortstr(queue) + r2;
    let chain0 = enc_u16(ticket) + r1;
    let l1 = enc_u16(ticket);
    let l2 = l1 + enc_shortstr(queue);
    assert(args_bytes(m) == l2 + enc_u8(fl));
    seq_assoc(l2, enc_u8(fl), rest);
    seq_assoc(l1, enc_shortstr(queue), r2);
    assert(args_bytes(m) + rest == chain0);
    lemma_p_u16(ticket, r1);
    assert(p_u16(chain0) == Some((ticket, r1)));
    lemma_p_shortstr(queue, r2);
    assert(p_shortstr(r1) == Some((queue, r2)));
    lemma_p_u8(fl, rest);
    assert(p_u8(r2) == Some((fl, rest)));
    lemma_bits_byte(if_unused, if_empty, nowait, false, false, false, false, false);
    assert(pm_queue_delete(chain0) == Some((m, rest)));
}

#[verifier::spinoff_prover]
#[verifier::rlimit(100)]
proof fn lemma_pm_basic_consume_a(
    ticket: u16,
    queue: Seq<u8>,
    consumer_tag: Seq<u8>,
    fl: u8,
    rest: Seq<u8>,
)
    requires
        queue.len() <= 255,
        consumer_tag.len() <= 255,
    ensures
        pm_basic_consume_a(enc_u16(ticket) + (enc_shortstr(queue)
            + (enc_shortstr(consumer_tag) + (enc_u8(fl) + rest))))
            == Some(((ticket, queue, consumer_tag, fl), rest)),
{
    let r3 = enc_u8(fl) + rest;
    let r2 = enc_shortstr(consumer_tag) + r3;
    let r1 = enc_shortstr(queue) + r2;
    lemma_p_u16(ticket, r1);
    lemma_p_shortstr(queue, r2);
    lemma_p_shortstr(consumer_tag, r3);
    lemma_p_u8(fl, rest);
}

#[verifier::spinoff_prover]
#[verifier::rlimit(100)]
proof fn lemma_pm_basic_consume(
    ticket: u16,
    queue: Seq<u8>,
    consumer_tag: Seq<u8>,
    no_local: bool,
    no_ack: bool,
    exclusive: bool,
    nowait: bool,
    arguments: Seq<TableEntryV>,
    rest: Seq<u8>,
)
    requires
        queue.len() <= 255,
        consumer_tag.len() <= 255,
        table_wf(arguments),
    ensures
        ({
            let m = MethodV::BasicConsume {
                ticket, queue, consumer_tag, no_local, no_ack, exclusive, nowait, arguments,
            };
            pm_basic_consume(args_bytes(m) + rest) == Some((m, rest))
        }),
{
    let m = MethodV::BasicConsume {
        ticket, queue, consumer_tag, no_local, no_ack, exclusive, nowait, arguments,
    };
    let fl = bits_byte(no_local, no_ack, exclusive, nowait, false, false, false, false);
    let r5 = enc_table(arguments) + rest;
    let r4 = enc_u8(fl) + r5;
    let r3 = enc_shortstr(consumer_tag) + r4;
    let r2 = enc_shortstr(queue) + r3;
    let chain0 = enc_u16(ticket) + r2;
    let l1 = enc_u16(ticket);
    let l2 = l1 + enc_shortstr(queue);
    let l3 = l2 + enc_shortstr(consumer_tag);
    let l4 = l3 + enc_u8(fl);
    assert(args_bytes(m) == l4 + enc_table(arguments));
    seq_assoc(l4, enc_table(arguments), rest);
    seq_assoc(l3, enc_u8(fl), r5);
    seq_assoc(l2, enc_shortstr(consumer_tag), r4);
    seq_assoc(l1, enc_shortstr(queue), r3);
    assert(args_bytes(m) + rest == chain0);
    lemma_pm_basic_consume_a(ticket, queue, consumer_tag, fl, r5);
    assert(pm_basic_consume_a(chain0) == Some(((ticket, queue, consumer_tag, fl), r5)));
    lemma_bits_byte(no_local, no_ack, exclusive, nowait, false, false, false, false);
    lemma_p_table(arguments, rest);
}

#[verifier::spinoff_prover]
#[verifier::rlimit(100)]
proof fn lemma_pm_basic_get_ok_a(
    delivery_tag: u64,
    fl: u8,
    exchange: Seq<u8>,
    routing_key: Seq<u8>,
    rest: Seq<u8>,
)
    requires
        exchange.len() <= 255,
        routing_key.len() <= 255,
    ensures
        pm_basic_get_ok_a(enc_u64(delivery_tag) + (enc_u8(fl)
            + (enc_shortstr(exchange) + (enc_shortstr(routing_key) + rest))))
            == Some(((delivery_tag, fl, exchange, routing_key), rest)),
{
    let r3 = enc_shortstr(routing_key) + rest;
    let r2 = enc_shortstr(exchange) + r3;
    let r1 = enc_u8(fl) + r2;
    lemma_p_u64(delivery_tag, r1);
    lemma_p_u8(fl, r2);
    lemma_p_shortstr(exchange, r3);
    lemma_p_shortstr(routing_key, rest);
}

#[verifier::spinoff_prover]
#[verifier::rlimit(100)]
proof fn lemma_pm_basic_get_ok(
    delivery_tag: u64,
    redelivered: bool,
    exchange: Seq<u8>,
    routing_key: Seq<u8>,
    message_count: u32,
    rest: Seq<u8>,
)
    requires
        exchange.len() <= 255,
        routing_key.len() <= 255,
    ensures
        ({
            let m = MethodV::BasicGetOk {
                delivery_tag, redelivered, exchange, routing_key, message_count,
            };
            parse_args(60, 71, args_bytes(m) + rest) == Some((m, rest))
        }),
{
    let m = MethodV::BasicGetOk { delivery_tag, redelivered, exchange, routing_key, message_count };
    let fl = bits_byte(redelivered, false, false, false, false, false, false, false);
    let r5 = enc_u32(message_count) + rest;
    let r4 = enc_shortstr(routing_key) + r5;
    let r3 = enc_shortstr(exchange) + r4;
    let r2 = enc_u8(fl) + r3;
    let chain0 = enc_u64(delivery_tag) + r2;
    let l1 = enc_u64(delivery_tag);
    let l2 = l1 + enc_u8(fl);
    let l3 = l2 + enc_shortstr(exchange);
    let l4 = l3 + enc_shortstr(routing_key);
    assert(args_bytes(m) == l4 + enc_u32(message_count));
    seq_assoc(l4, enc_u32(message_count), rest);
    seq_assoc(l3, enc_shortstr(routing_key), r5);
    seq_assoc(l2, enc_shortstr(exchange), r4);
    seq_assoc(l1, enc_u8(fl), r3);
    assert(args_bytes(m) + rest == chain0);
    lemma_pm_basic_get_ok_a(delivery_tag, fl, exchange, routing_key, r5);
    assert(pm_basic_get_ok_a(chain0) == Some(((delivery_tag, fl, exchange, routing_key), r5)));
    lemma_bits_byte(redelivered, false, false, false, false, false, false, false);
    lemma_p_u32(message_count, rest);
}

/// The argument dispatcher routes each table-bearing method id to its parser.
#[verifier::spinoff_prover]
#[verifier::rlimit(100)]
proof fn lemma_dispatch_tables(a: Seq<u8>)
    ensures
        parse_args(10, 10, a) == pm_connection_start(a),
        parse_args(40, 30, a) == pm_exchange_bind(a),
        parse_args(40, 40, a) == pm_exchange_unbind(a),
        parse_args(50, 20, a) == pm_queue_bind(a),
        parse_args(50, 50, a) == pm_queue_unbind(a),
        parse_args(60, 20, a) == pm_basic_consume(a),
{
}

// ---------------------------------------------------------------------------
// Round trip for every method, composed per class
// ---------------------------------------------------------------------------

#[verifier::spinoff_prover]
#[verifier::rlimit(100)]
proof fn lemma_args_rt_connection(m: MethodV, rest: Seq<u8>)
    requires
        method_wf(m),
        method_cm(m).0 == 10,
    ensures
        parse_args(10, method_cm(m).1, args_bytes(m) + rest) == Some((m, rest)),
{
    match m {
        MethodV::ConnectionStart { version_major, version_minor, server_properties, mechanisms, locales } => {
            lemma_pm_connection_start(version_major, version_minor, server_properties, mechanisms, locales, rest);
            lemma_dispatch_tables(args_bytes(m) + rest);
        },
        MethodV::ConnectionStartOk { client_properties, mechanism, response, locale } => {
            lemma_pm_connection_start_ok(client_properties, mechanism, response, locale, rest);
        },
        MethodV::ConnectionTune { channel_max, frame_max, heartbeat } => {
            lemma_pm_connection_tune(channel_max, frame_max, heartbeat, rest);
        },
        MethodV::ConnectionTuneOk { channel_max, frame_max, heartbeat } => {
            lemma_pm_connection_tune_ok(channel_max, frame_max, heartbeat, rest);
        },
        MethodV::ConnectionOpen { virtual_host, capabilities, insist } => {
            lemma_pm_connection_open(virtual_host, capabilities, insist, rest);
        },
        MethodV::ConnectionOpenOk { known_hosts } => {
            lemma_pm_connection_open_ok(known_hosts, rest);
        },
        MethodV::ConnectionClose { reply_code, reply_text, class_id, method_id } => {
            lemma_pm_connection_close(reply_code, reply_text, class_id, method_id, rest);
        },
        MethodV::ConnectionCloseOk => {
            assert(args_bytes(m) + rest =~= rest);
        },
        _ => {},
    }
}

#[verifier::spinoff_prover]
#[verifier::rlimit(100)]
proof fn lemma_args_rt_channel(m: MethodV, rest: Seq<u8>)
    requires
        method_wf(m),
        method_cm(m).0 == 20,
    ensures
        parse_args(20, method_cm(m).1, args_bytes(m) + rest) == Some((m, rest)),
{
    match m {
        MethodV::ChannelOpen { out_of_band } => {
            lemma_pm_channel_open(out_of_band, rest);
        },
        MethodV::ChannelOpenOk { channel_id } => {
            lemma_pm_channel_open_ok(channel_id, rest);
        },
        MethodV::ChannelFlow { active } => {
            lemma_pm_channel_flow(active, rest);
        },
        MethodV::ChannelFlowOk { active } => {
            lemma_pm_channel_flow_ok(active, rest);
        },
        MethodV::ChannelClose { reply_code, reply_text, class_id, method_id } => {
            lemma_pm_channel_close(reply_code, reply_text, class_id, method_id, rest);
        },
        MethodV::ChannelCloseOk => {
            assert(args_bytes(m) + rest =~= rest);
        },
        _ => {},
    }
}

#[verifier::spinoff_prover]
#[verifier::rlimit(100)]
proof fn lemma_args_rt_access(m: MethodV, rest: Seq<u8>)
    requires
        method_wf(m),
        method_cm(m).0 == 30,
    ensures
        parse_args(30, method_cm(m).1, args_bytes(m) + rest) == Some((m, rest)),
{
    match m {
        MethodV::AccessRequest { realm, exclusive, passive, active, write, read } => {
            lemma_pm_access_request(realm, exclusive, passive, active, write, read, rest);
        },
        MethodV::AccessRequestOk { ticket } => {
            lemma_pm_access_request_ok(ticket, rest);
        },
        _ => {},
    }
}

#[verifier::spinoff_prover]
#[verifier::rlimit(100)]
proof fn lemma_args_rt_exchange(m: MethodV, rest: Seq<u8>)
    requires
        method_wf(m),
        method_cm(m).0 == 40,
    ensures
        parse_args(40, method_cm(m).1, args_bytes(m) + rest) == Some((m, rest)),
{
    match m {
        MethodV::ExchangeDeclare { ticket, exchange, exchange_type, passive, durable, auto_delete, internal, nowait, arguments } => {
            lemma_pm_exchange_declare(ticket, exchange, exchange_type, passive, durable, auto_delete, internal, nowait, arguments, rest);
        },
        MethodV::ExchangeDeclareOk => {
            assert(args_bytes(m) + rest =~= rest);
        },
        MethodV::ExchangeDelete { ticket, exchange, if_unused, nowait } => {
            lemma_pm_exchange_delete(ticket, exchange, if_unused, nowait, rest);
        },
        MethodV::ExchangeDeleteOk => {
            assert(args_bytes(m) + rest =~= rest);
        },
        MethodV::ExchangeBind { ticket, destination, source, routing_key, nowait, arguments } => {
            lemma_pm_exchange_bind(ticket, destination, source, routing_key, nowait, arguments, rest);
            lemma_dispatch_tables(args_bytes(m) + rest);
        },
        MethodV::ExchangeBindOk => {
            assert(args_bytes(m) + rest =~= rest);
        },
        MethodV::ExchangeUnbind { ticket, destination, source, routing_key, nowait, arguments } => {
            lemma_pm_exchange_unbind(ticket, destination, source, routing_key, nowait, arguments, rest);
            lemma_dispatch_tables(args_bytes(m) + rest);
        },
        MethodV::ExchangeUnbindOk => {
            assert(args_bytes(m) + rest =~= rest);
        },
        _ => {},
    }
}

#[verifier::spinoff_prover]
#[verifier::rlimit(100)]
proof fn lemma_args_rt_queue(m: MethodV, rest: Seq<u8>)
    requires
        method_wf(m),
        method_cm(m).0 == 50,
    ensures
        parse_args(50, method_cm(m).1, args_bytes(m) + rest) == Some((m, rest)),
{
    match m {
        MethodV::QueueDeclare { ticket, queue, passive, durable, exclusive, auto_delete, nowait, arguments } => {
            lemma_pm_queue_declare(ticket, queue, passive, durable, exclusive, auto_delete, nowait, arguments, rest);
        },
        MethodV::QueueDeclareOk { queue, message_count, consumer_count } => {
            lemma_pm_queue_declare_ok(queue, message_count, consumer_count, rest);
        },
        MethodV::QueueBind { ticket, queue, exchange, routing_key, nowait, arguments } => {
            lemma_pm_queue_bind(ticket, queue, exchange, routing_key, nowait, arguments, rest);
            lemma_dispatch_tables(args_bytes(m) + rest);
        },
        MethodV::QueueBindOk => {
            assert(args_bytes(m) + rest =~= rest);
        },
        MethodV::QueuePurge { ticket, queue, nowait } => {
            lemma_pm_queue_purge(ticket, queue, nowait, rest);
        },
        MethodV::QueuePurgeOk { message_count } => {
            lemma_pm_queue_purge_ok(message_count, rest);
        },
        MethodV::QueueDelete { ticket, queue, if_unused, if_empty, nowait } => {
            lemma_pm_queue_delete(ticket, queue, if_unused, if_empty, nowait, rest);
        },
        MethodV::QueueDeleteOk { message_count } => {
            lemma_pm_queue_delete_ok(message_count, rest);
        },
        MethodV::QueueUnbind { ticket, queue, exchange, routing_key, arguments } => {
            lemma_pm_queue_unbind(ticket, queue, exchange, routing_key, arguments, rest);
            lemma_dispatch_tables(args_bytes(m) + rest);
        },
        MethodV::QueueUnbindOk => {
            assert(args_bytes(m) + rest =~= rest);
        },
        _ => {},
    }
}

#[verifier::spinoff_prover]
#[verifier::rlimit(100)]
proof fn lemma_args_rt_basic(m: MethodV, rest: Seq<u8>)
    requires
        method_wf(m),
        method_cm(m).0 == 60,
    ensures
        parse_args(60, method_cm(m).1, args_bytes(m) + rest) == Some((m, rest)),
{
    match m {
        MethodV::BasicQos { prefetch_size, prefetch_count, global } => {
            lemma_pm_basic_qos(prefetch_size, prefetch_count, global, rest);
        },
        MethodV::BasicQosOk => {
            assert(args_bytes(m) + rest =~= rest);
        },
        MethodV::BasicConsume { ticket, queue, consumer_tag, no_local, no_ack, exclusive, nowait, arguments } => {
            lemma_pm_basic_consume(ticket, queue, consumer_tag, no_local, no_ack, exclusive, nowait, arguments, rest);
            lemma_dispatch_tables(args_bytes(m) + rest);
        },
        MethodV::BasicConsumeOk { consumer_tag } => {
            lemma_pm_basic_consume_ok(consumer_tag, rest);
        },
        MethodV::BasicPublish { ticket, exchange, routing_key, mandatory, immediate } => {
            lemma_pm_basic_publish(ticket, exchange, routing_key, mandatory, immediate, rest);
        },
        MethodV::BasicReturn { reply_code, reply_text, exchange, routing_key } => {
            lemma_pm_basic_return(reply_code, reply_text, exchange, routing_key, rest);
        },
        MethodV::BasicDeliver { consumer_tag, delivery_tag, redelivered, exchange, routing_key } => {
            lemma_pm_basic_deliver(consumer_tag, delivery_tag, redelivered, exchange, routing_key, rest);
        },
        MethodV::BasicGet { ticket, queue, no_ack } => {
            lemma_pm_basic_get(ticket, queue, no_ack, rest);
        },
        MethodV::BasicGetOk { delivery_tag, redelivered, exchange, routing_key, message_count } => {
            lemma_pm_basic_get_ok(delivery_tag, redelivered, exchange, routing_key, message_count, rest);
        },
        MethodV::BasicGetEmpty { cluster_id } => {
            lemma_pm_basic_get_empty(cluster_id, rest);
        },
        MethodV::BasicAck { delivery_tag, multiple } => {
            lemma_pm_basic_ack(delivery_tag, multiple, rest);
        },
        MethodV::BasicReject { delivery_tag, requeue } => {
            lemma_pm_basic_reject(delivery_tag, requeue, rest);
        },
        MethodV::BasicNack { delivery_tag, multiple, requeue } => {
            lemma_pm_basic_nack(delivery_tag, multiple, requeue, rest);
        },
        _ => {},
    }
}

#[verifier::spinoff_prover]
#[verifier::rlimit(100)]
proof fn lemma_args_rt_confirm(m: MethodV, rest: Seq<u8>)
    requires
        method_wf(m),
        method_cm(m).0 == 85,
    ensures
        parse_args(85, method_cm(m).1, args_bytes(m) + rest) == Some((m, rest)),
{
    match m {
        MethodV::ConfirmSelect { nowait } => {
            lemma_pm_confirm_select(nowait, rest);
        },
        MethodV::ConfirmSelectOk => {
            assert(args_bytes(m) + rest =~= rest);
        },
        _ => {},
    }
}

/// Every well-formed method's encoded arguments parse back to the method,
/// leaving the trailing bytes untouched.
pub proof fn lemma_parse_args_rt(m: MethodV, rest: Seq<u8>)
    requires
        method_wf(m),
    ensures
        parse_args(method_cm(m).0, method_cm(m).1, args_bytes(m) + rest) == Some((m, rest)),
{
    let cls = method_cm(m).0;
    if cls == 10 {
        lemma_args_rt_connection(m, rest);
    } else if cls == 20 {
        lemma_args_rt_channel(m, rest);
    } else if cls == 30 {
        lemma_args_rt_access(m, rest);
    } else if cls == 40 {
        lemma_args_rt_exchange(m, rest);
    } else if cls == 50 {
        lemma_args_rt_queue(m, rest);
    } else if cls == 60 {
        lemma_args_rt_basic(m, rest);
    } else {
        lemma_args_rt_confirm(m, rest);
    }
}

/// A well-formed method frame payload parses back to the method exactly.
pub proof fn lemma_method_payload_rt(m: MethodV)
    requires
        method_wf(m),
    ensures
        parse_method_payload(method_payload(m)) == Some(m),
{
    let cls = method_cm(m).0;
    let mid = method_cm(m).1;
    let ab = args_bytes(m);
    let e = Seq::<u8>::empty();
    seq_assoc(enc_u16(cls), enc_u16(mid), ab);
    assert(method_payload(m) == enc_u16(cls) + (enc_u16(mid) + ab));
    lemma_p_u16(cls, enc_u16(mid) + ab);
    lemma_p_u16(mid, ab);
    lemma_parse_args_rt(m, e);
    assert(ab + e =~= ab);
    assert(parse_args(cls, mid, ab) == Some((m, e)));
}

/// A well-formed content header payload parses back exactly.
pub proof fn lemma_header_payload_rt(class_id: u16, h: ContentHeaderV)
    requires
        props_wf(h.properties),
    ensures
        parse_header_payload(header_payload(class_id, h)) == Some((class_id, h)),
{
    let pb = props_bytes(h.properties);
    let e = Seq::<u8>::empty();
    let l2 = enc_u16(class_id) + enc_u16(0);
    let l3 = l2 + enc_u64(h.body_size);
    assert(header_payload(class_id, h) == l3 + pb);
    seq_assoc(l2, enc_u64(h.body_size), pb);
    seq_assoc(enc_u16(class_id), enc_u16(0), enc_u64(h.body_size) + pb);
    assert(header_payload(class_id, h)
        == enc_u16(class_id) + (enc_u16(0) + (enc_u64(h.body_size) + pb)));
    lemma_p_u16(class_id, enc_u16(0) + (enc_u64(h.body_size) + pb));
    lemma_p_u16(0, enc_u64(h.body_size) + pb);
    lemma_p_u64(h.body_size, pb);
    lemma_p_props(h.properties, e);
    assert(pb + e =~= pb);
    assert(p_props(pb) == Some((h.properties, e)));
}

// ---------------------------------------------------------------------------
// Frame-level round trip
// ---------------------------------------------------------------------------

/// Index and window facts shared by every framed (non-greeting) frame shape.
#[verifier::spinoff_prover]
#[verifier::rlimit(100)]
proof fn lemma_frame_prologue(f: FrameV, ext: Seq<u8>)
    requires
        !(f is ProtocolHeader),
        frame_payload(f).len() < 0x1_0000_0000,
    ensures
        ({
            let b = frame_bytes(f) + ext;
            let pl = frame_payload(f);
            &&& frame_bytes(f).len() == 8 + pl.len()
            &&& b.len() == 8 + pl.len() + ext.len()
            &&& b[0] == frame_type(f)
            &&& be_u16(b[1], b[2]) == frame_channel(f)
            &&& be_u32(b[3], b[4], b[5], b[6]) as nat == pl.len()
            &&& b[7 + pl.len() as int] == 0xCE
            &&& b.subrange(7, 7 + pl.len() as int) == pl
        }),
{
    let t = frame_type(f);
    let ch = frame_channel(f);
    let pl = frame_payload(f);
    let n32 = pl.len() as u32;
    let b = frame_bytes(f) + ext;
    let x4 = seq![0xCEu8] + ext;
    let x3 = pl + x4;
    let x2 = enc_u32(n32) + x3;
    let x1 = enc_u16(ch) + x2;
    let l1 = seq![t];
    let l2 = l1 + enc_u16(ch);
    let l3 = l2 + enc_u32(n32);
    let l4 = l3 + pl;
    assert(frame_bytes(f) == l4 + seq![0xCEu8]);
    seq_assoc(l4, seq![0xCEu8], ext);
    seq_assoc(l3, pl, x4);
    seq_assoc(l2, enc_u32(n32), x3);
    seq_assoc(l1, enc_u16(ch), x2);
    assert(b == l1 + x1);
    assert(b[0] == t);
    assert(b[1] == x1[0]);
    assert(b[2] == x1[1]);
    assert(x1[0] == (ch >> 8) as u8);
    assert(x1[1] == (ch as u8));
    lemma_be_u16_enc(ch);
    assert(b[3] == x2[0]);
    assert(b[4] == x2[1]);
    assert(b[5] == x2[2]);
    assert(b[6] == x2[3]);
    lemma_be_u32_enc(n32);
    assert(b[7 + pl.len() as int] == x2[4 + pl.len() as int]);
    assert(x2[4 + pl.len() as int] == x3[pl.len() as int]);
    assert(x3[pl.len() as int] == x4[0]);
    assert(b.subrange(7, 7 + pl.len() as int) =~= pl);
}

/// A well-formed frame's bytes, followed by anything, parse back to the
/// frame, consuming exactly the frame's bytes.
#[verifier::spinoff_prover]
#[verifier::rlimit(100)]
pub proof fn lemma_frame_bytes_parse(f: FrameV, ext: Seq<u8>)
    requires
        frame_wf(f),
    ensures
        parse_frame(frame_bytes(f) + ext) == FrameParse::Parsed(f, frame_bytes(f).len() as nat),
{
    let b = frame_bytes(f) + ext;
    match f {
        FrameV::ProtocolHeader => {
            let h = protocol_header_bytes();
            assert(frame_bytes(f) == h);
            assert(forall|i: int| 0 <= i < 8 ==> b[i] == h[i]);
            assert(b[0] == 65);
            assert(b.len() >= 8);
            assert(!(exists|i: int| 0 <= i < b.len() && i < 8 && b[i] != h[i]));
            assert(parse_protocol_header(b) == FrameParse::Parsed(FrameV::ProtocolHeader, 8));
        },
        _ => {
            lemma_frame_prologue(f, ext);
            let pl = frame_payload(f);
            let n = pl.len();
            assert(b[0] != 65 && (b[0] == 1 || b[0] == 2 || b[0] == 3 || b[0] == 8));
            assert(b.len() >= 7);
            assert(b.len() >= 8 + n);
            match f {
                FrameV::Heartbeat(ch) => {
                    assert(n == 0);
                },
                FrameV::Body(ch, data) => {
                    assert(b.subrange(7, 7 + n as int) == data);
                },
                FrameV::Method(ch, m) => {
                    lemma_method_payload_rt(m);
                    assert(parse_method_payload(b.subrange(7, 7 + n as int)) == Some(m));
                },
                FrameV::Header(ch, cls, h) => {
                    lemma_header_payload_rt(cls, h);
                    assert(parse_header_payload(b.subrange(7, 7 + n as int)) == Some((cls, h)));
                },
                FrameV::ProtocolHeader => {},
            }
        },
    }
}

/// Encode then decode is the identity on well-formed frames.
pub proof fn lemma_codec_round_trip(f: FrameV)
    requires
        frame_wf(f),
    ensures
        parse_frame(frame_bytes(f)) == FrameParse::Parsed(f, frame_bytes(f).len() as nat),
{
    lemma_frame_bytes_parse(f, Seq::empty());
    assert(frame_bytes(f) + Seq::<u8>::empty() =~= frame_bytes(f));
}

// ---------------------------------------------------------------------------
// Extension stability and drain composition
// ---------------------------------------------------------------------------

/// A parsed frame occupies at least eight bytes and no more than the buffer.
pub proof fn lemma_parse_frame_len(b: Seq<u8>)
    ensures
        parse_frame(b) matches FrameParse::Parsed(f, c) ==> 8 <= c <= b.len(),
{
}

/// Growing the buffer never changes an already-decided parse: a parsed frame
/// stays the same parse, malformed bytes stay malformed.
#[verifier::spinoff_prover]
#[verifier::rlimit(100)]
proof fn lemma_parse_frame_extend(b: Seq<u8>, ext: Seq<u8>)
    ensures
        parse_frame(b) matches FrameParse::Parsed(f, c) ==> parse_frame(b + ext)
            == FrameParse::Parsed(f, c),
        parse_frame(b) is Malformed ==> parse_frame(b + ext) is Malformed,
{
    let b2 = b + ext;
    assert(forall|i: int| 0 <= i < b.len() ==> b2[i] == b[i]);
    if b.len() == 0 {
    } else if b[0] == 65 {
        let h = protocol_header_bytes();
        if exists|i: int| 0 <= i < b.len() && i < 8 && b[i] != h[i] {
            let i = choose|i: int| 0 <= i < b.len() && i < 8 && b[i] != h[i];
            assert(0 <= i < b2.len() && i < 8 && b2[i] != h[i]);
        } else if b.len() >= 8 {
            assert(forall|i: int| 0 <= i < b2.len() && i < 8 ==> b2[i] == b[i]);
            assert(!(exists|i: int| 0 <= i < b2.len() && i < 8 && b2[i] != h[i]));
        }
    } else if b[0] == 1 || b[0] == 2 || b[0] == 3 || b[0] == 8 {
        if b.len() >= 7 {
            let size = be_u32(b[3], b[4], b[5], b[6]) as nat;
            let total = 8 + size;
            if b.len() >= total {
                assert(b2.subrange(7, 7 + size as int) =~= b.subrange(7, 7 + size as int));
                assert(b2[total - 1] == b[total - 1]);
            }
        }
    }
}

/// The result of draining does not depend on the fuel, once the fuel covers
/// the buffer.
pub proof fn lemma_drain_fuel(b: Seq<u8>, f1: nat, f2: nat)
    requires
        f1 >= b.len(),
        f2 >= b.len(),
    ensures
        drain_frames(b, f1) == drain_frames(b, f2),
    decreases b.len(),
{
    lemma_parse_frame_len(b);
    match parse_frame(b) {
        FrameParse::Parsed(f, c) => {
            lemma_drain_fuel(b.skip(c as int), (f1 - 1) as nat, (f2 - 1) as nat);
        },
        _ => {},
    }
}

/// What drain leaves behind never holds a whole frame.
pub proof fn lemma_drain_frames_leftover(b: Seq<u8>, fuel: nat)
    ensures
        drain_frames(b, fuel) matches Some((fs, rest)) ==> parse_frame(rest) is Incomplete,
    decreases fuel,
{
    match parse_frame(b) {
        FrameParse::Parsed(f, c) => {
            if 0 < c <= b.len() && fuel > 0 {
                lemma_drain_frames_leftover(b.skip(c as int), (fuel - 1) as nat);
            }
        },
        _ => {},
    }
}

/// Draining composes over buffer growth: draining `b1 + b2` decodes the
/// frames of `b1` and then drains the leftover of `b1` followed by `b2`.
#[verifier::spinoff_prover]
#[verifier::rlimit(100)]
pub proof fn lemma_drain_append(b1: Seq<u8>, b2: Seq<u8>)
    ensures
        drain(b1 + b2) == (match drain(b1) {
            None => None::<(Seq<FrameV>, Seq<u8>)>,
            Some((fs1, r1)) => match drain(r1 + b2) {
                None => None,
                Some((fs2, r2)) => Some((fs1 + fs2, r2)),
            },
        }),
    decreases b1.len(),
{
    let b12 = b1 + b2;
    lemma_parse_frame_extend(b1, b2);
    lemma_parse_frame_len(b1);
    match parse_frame(b1) {
        FrameParse::Incomplete => {
            match drain(b12) {
                None => {},
                Some((fs2, r2)) => {
                    assert(Seq::<FrameV>::empty() + fs2 =~= fs2);
                },
            }
        },
        FrameParse::Malformed => {},
        FrameParse::Parsed(f, c) => {
            let s = b1.skip(c as int);
            assert(b12.skip(c as int) =~= s + b2);
            lemma_drain_fuel(s, (b1.len() - 1) as nat, s.len());
            lemma_drain_fuel(s + b2, (b12.len() - 1) as nat, (s + b2).len());
            lemma_drain_append(s, b2);
            match drain(s) {
                None => {},
                Some((fs, r)) => {
                    match drain(r + b2) {
                        None => {},
                        Some((fs2, r2)) => {
                            seq_assoc(seq![f], fs, fs2);
                        },
                    }
                },
            }
        },
    }
}

/// The streaming decoder over any chunking equals one drain of the whole
/// stream, provided the starting buffer holds no whole frame.
#[verifier::spinoff_prover]
#[verifier::rlimit(100)]
proof fn lemma_feed_chunks(buf: Seq<u8>, acc: Seq<FrameV>, cs: Seq<Seq<u8>>)
    requires
        parse_frame(buf) is Incomplete,
    ensures
        feed_chunks(buf, acc, cs) == (match drain(buf + concat_chunks(cs)) {
            None => None::<(Seq<FrameV>, Seq<u8>)>,
            Some((fs, r)) => Some((acc + fs, r)),
        }),
    decreases cs.len(),
{
    if cs.len() == 0 {
        assert(buf + concat_chunks(cs) =~= buf);
        assert(drain(buf) == Some((Seq::<FrameV>::empty(), buf)));
        assert(acc + Seq::<FrameV>::empty() =~= acc);
    } else {
        let c0 = cs[0];
        let rest_cs = cs.skip(1);
        seq_assoc(buf, c0, concat_chunks(rest_cs));
        assert(buf + concat_chunks(cs) == (buf + c0) + concat_chunks(rest_cs));
        lemma_drain_append(buf + c0, concat_chunks(rest_cs));
        match drain(buf + c0) {
            None => {},
            Some((fs, r)) => {
                lemma_drain_frames_leftover(buf + c0, (buf + c0).len());
                lemma_feed_chunks(r, acc + fs, rest_cs);
                match drain(r + concat_chunks(rest_cs)) {
                    None => {},
                    Some((fs2, r2)) => {
                        seq_assoc(acc, fs, fs2);
                    },
                }
            },
        }
    }
}

/// A valid frame stream drains to exactly its frames, with nothing left.
pub proof fn lemma_drain_valid_stream(fs: Seq<FrameV>)
    requires
        forall|i: int| 0 <= i < fs.len() ==> frame_wf(#[trigger] fs[i]),
    ensures
        drain(frames_bytes(fs)) == Some((fs, Seq::<u8>::empty())),
    decreases fs.len(),
{
    if fs.len() == 0 {
        assert(frames_bytes(fs) == Seq::<u8>::empty());
        assert(parse_frame(Seq::<u8>::empty()) is Incomplete);
    } else {
        let f0 = fs[0];
        let tail = frames_bytes(fs.skip(1));
        let b = frames_bytes(fs);
        lemma_frame_bytes_parse(f0, tail);
        let c0 = frame_bytes(f0).len();
        assert(b == frame_bytes(f0) + tail);
        assert(b.skip(c0 as int) =~= tail);
        lemma_parse_frame_len(b);
        lemma_drain_fuel(tail, (b.len() - 1) as nat, tail.len());
        assert(forall|i: int| 0 <= i < fs.skip(1).len() ==> frame_wf(#[trigger] fs.skip(1)[i]));
        lemma_drain_valid_stream(fs.skip(1));
        assert(seq![f0] + fs.skip(1) =~= fs);
    }
}

/// Fragmentation insensitivity: however a valid frame stream is cut into
/// chunks, the streaming decoder yields exactly the stream's frames, in
/// order, with an empty buffer at the end.
pub proof fn lemma_decode_fragmentation(fs: Seq<FrameV>, cs: Seq<Seq<u8>>)
    requires
        forall|i: int| 0 <= i < fs.len() ==> frame_wf(#[trigger] fs[i]),
        concat_chunks(cs) == frames_bytes(fs),
    ensures
        feed_chunks(Seq::empty(), Seq::empty(), cs) == Some((fs, Seq::<u8>::empty())),
{
    assert(parse_frame(Seq::<u8>::empty()) is Incomplete);
    lemma_feed_chunks(Seq::empty(), Seq::empty(), cs);
    assert(Seq::<u8>::empty() + concat_chunks(cs) =~= concat_chunks(cs));
    lemma_drain_valid_stream(fs);
    assert(Seq::<FrameV>::empty() + fs =~= fs);
}

} // verus!

