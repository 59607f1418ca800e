//! The executable frame encoder, proved to emit exactly `frame_bytes` for
//! every well-formed frame and to reject every other frame unchanged.

use vstd::prelude::*;
use crate::Error;
use crate::wire::{
    enc_u32, enc_shortstr, bits_byte,
    w_u8, w_u16, w_u32, w_u64, w_bytes, w_shortstr, w_longstr,
};
use crate::frame::{
    FieldValue, FieldTable, BasicProperties, Method, Frame, table_v, opt_bytes_v,
    opt_table_v, TableEntryV,
};
use crate::codec::{
    fv_bytes, fv_wf, entry_bytes, entry_wf, table_content, table_wf, enc_table,
    opt_shortstr_bytes, opt_u8_bytes, opt_u64_bytes, opt_table_bytes, props_flags_hi,
    props_flags_lo, props_bytes, props_hi_bytes, props_lo_bytes, opt_shortstr_wf, props_wf,
    method_cm, args_bytes, method_wf, method_payload, header_payload,
    frame_payload, frame_bytes, frame_wf,
};

verus! {

proof fn lemma_table_content_snoc(s: Seq<TableEntryV>, e: TableEntryV)
    ensures
        table_content(s + seq![e]) == table_content(s) + entry_bytes(e),
    decreases s.len(),
{
    if s.len() == 0 {
        assert(s + seq![e] =~= seq![e]);
        assert(seq![e].skip(1) =~= Seq::<TableEntryV>::empty());
        assert(table_content(seq![e].skip(1)) =~= Seq::<u8>::empty());
        assert(table_content(seq![e]) =~= entry_bytes(e));
        assert(table_content(s) =~= Seq::<u8>::empty());
        assert(table_content(s) + entry_bytes(e) =~= entry_bytes(e));
    } else {
        assert((s + seq![e])[0] == s[0]);
        assert((s + seq![e]).skip(1) =~= s.skip(1) + seq![e]);
        lemma_table_content_snoc(s.skip(1), e);
        assert(entry_bytes(s[0]) + (table_content(s.skip(1)) + entry_bytes(e))
            =~= (entry_bytes(s[0]) + table_content(s.skip(1))) + entry_bytes(e));
    }
}

/// Write one field value, after checking its bounds.
fn write_fv(out: &mut Vec<u8>, v: &FieldValue) -> (r: Result<(), Error>)
    ensures
        match r {
            Ok(()) => fv_wf(v@) && final(out)@ == old(out)@ + fv_bytes(v@),
            Err(e) => !fv_wf(v@) && final(out)@ == old(out)@ && e == Error::SerializeError,
        },
{
    match v {
        FieldValue::Boolean(b) => {
            w_u8(out, 0x74);
            w_u8(out, if *b { 1 } else { 0 });
            proof {
                assert(out@ =~= old(out)@ + fv_bytes(v@));
            }
            Ok(())
        },
        FieldValue::LongInt(n) => {
            w_u8(out, 0x49);
            w_u32(out, *n as u32);
            proof {
                assert(out@ =~= old(out)@ + fv_bytes(v@));
            }
            Ok(())
        },
        FieldValue::LongString(s) => {
            if s.len() as u64 >= 0x1_0000_0000u64 {
                Err(Error::SerializeError)
            } else {
                w_u8(out, 0x53);
                w_longstr(out, s);
                proof {
                    assert(out@ =~= old(out)@ + fv_bytes(v@));
                }
                Ok(())
            }
        },
        FieldValue::Table(c) => {
            if c.len() as u64 >= 0x1_0000_0000u64 {
                Err(Error::SerializeError)
            } else {
                w_u8(out, 0x46);
                w_longstr(out, c);
                proof {
                    assert(out@ =~= old(out)@ + fv_bytes(v@));
                }
                Ok(())
            }
        },
    }
}

/// Serialize a table's content (without the length prefix).
pub(crate) fn table_content_vec(t: &FieldTable) -> (r: Result<Vec<u8>, Error>)
    ensures
        match r {
            Ok(v) => {
                &&& forall|i: int| 0 <= i < table_v(t@).len() ==> entry_wf(#[trigger] table_v(t@)[i])
                &&& v@ == table_content(table_v(t@))
            },
            Err(e) => {
                &&& !(forall|i: int|
                    0 <= i < table_v(t@).len() ==> entry_wf(#[trigger] table_v(t@)[i]))
                &&& e == Error::SerializeError
            },
        },
{
    let mut out: Vec<u8> = Vec::new();
    let mut i: usize = 0;
    while i < t.len()
        invariant
            i <= t@.len(),
            out@ == table_content(table_v(t@.take(i as int))),
            forall|k: int| 0 <= k < i ==> entry_wf(#[trigger] table_v(t@)[k]),
        decreases t@.len() - i,
    {
        let entry = &t[i];
        if entry.key.len() > 255 {
            proof {
                assert(table_v(t@)[i as int] == t@[i as int]@);
                assert(!entry_wf(table_v(t@)[i as int]));
            }
            return Err(Error::SerializeError);
        }
        w_shortstr(&mut out, &entry.key);
        match write_fv(&mut out, &entry.value) {
            Ok(()) => {},
            Err(e) => {
                proof {
                    assert(table_v(t@)[i as int] == t@[i as int]@);
                    assert(!entry_wf(table_v(t@)[i as int]));
                }
                return Err(e);
            },
        }
        proof {
            let tv = table_v(t@);
            assert(table_v(t@.take(i + 1)) =~= table_v(t@.take(i as int)) + seq![t@[i as int]@]);
            lemma_table_content_snoc(table_v(t@.take(i as int)), t@[i as int]@);
            assert(entry_bytes(t@[i as int]@)
                == enc_shortstr(t@[i as int]@.key) + fv_bytes(t@[i as int]@.value));
            assert(out@ =~= table_content(table_v(t@.take(i as int))) + entry_bytes(t@[i as int]@));
            assert(tv[i as int] == t@[i as int]@);
        }
        i = i + 1;
    }
    proof {
        assert(t@.take(i as int) =~= t@);
        assert(forall|k: int| 0 <= k < table_v(t@).len() ==> entry_wf(#[trigger] table_v(t@)[k]));
    }
    Ok(out)
}

/// Write a whole table, length prefix included.
fn w_table(out: &mut Vec<u8>, t: &FieldTable) -> (r: Result<(), Error>)
    ensures
        match r {
            Ok(()) => table_wf(table_v(t@)) && final(out)@ == old(out)@ + enc_table(table_v(t@)),
            Err(e) => {
                &&& !table_wf(table_v(t@))
                &&& final(out)@ == old(out)@
                &&& e == Error::SerializeError
            },
        },
{
    match table_content_vec(t) {
        Ok(content) => {
            if content.len() as u64 >= 0x1_0000_0000u64 {
                Err(Error::SerializeError)
            } else {
                w_u32(out, content.len() as u32);
                w_bytes(out, &content);
                proof {
                    assert(out@ =~= old(out)@ + enc_table(table_v(t@)));
                }
                Ok(())
            }
        },
        Err(e) => Err(e),
    }
}

fn w_opt_shortstr(out: &mut Vec<u8>, o: &Option<Vec<u8>>) -> (r: Result<(), Error>)
    ensures
        match r {
            Ok(()) => {
                &&& opt_shortstr_wf(opt_bytes_v(*o))
                &&& final(out)@ == old(out)@ + opt_shortstr_bytes(opt_bytes_v(*o))
            },
            Err(e) => {
                &&& !opt_shortstr_wf(opt_bytes_v(*o))
                &&& final(out)@ == old(out)@
                &&& e == Error::SerializeError
            },
        },
{
    match o {
        Some(s) => {
            if s.len() > 255 {
                Err(Error::SerializeError)
            } else {
                w_shortstr(out, s);
                Ok(())
            }
        },
        None => {
            proof {
                assert(out@ =~= old(out)@ + opt_shortstr_bytes(opt_bytes_v(*o)));
            }
            Ok(())
        },
    }
}

fn w_opt_u8(out: &mut Vec<u8>, o: &Option<u8>)
    ensures
        final(out)@ == old(out)@ + opt_u8_bytes(*o),
{
    match o {
        Some(x) => {
            w_u8(out, *x);
        },
        None => {
            proof {
                assert(out@ =~= old(out)@ + opt_u8_bytes(*o));
            }
        },
    }
}

fn w_opt_u64(out: &mut Vec<u8>, o: &Option<u64>)
    ensures
        final(out)@ == old(out)@ + opt_u64_bytes(*o),
{
    match o {
        Some(x) => {
            w_u64(out, *x);
        },
        None => {
            proof {
                assert(out@ =~= old(out)@ + opt_u64_bytes(*o));
            }
        },
    }
}

fn w_opt_table(out: &mut Vec<u8>, o: &Option<FieldTable>) -> (r: Result<(), Error>)
    ensures
        match r {
            Ok(()) => {
                &&& match opt_table_v(*o) {
                    Some(t) => table_wf(t),
                    None => true,
                }
                &&& final(out)@ == old(out)@ + opt_table_bytes(opt_table_v(*o))
            },
            Err(e) => {
                &&& !(match opt_table_v(*o) {
                    Some(t) => table_wf(t),
                    None => true,
                })
                &&& final(out)@ == old(out)@
                &&& e == Error::SerializeError
            },
        },
{
    match o {
        Some(t) => w_table(out, t),
        None => {
            proof {
                assert(out@ =~= old(out)@ + opt_table_bytes(opt_table_v(*o)));
            }
            Ok(())
        },
    }
}

/// Serialize the fields governed by the first flag octet.
#[verifier::spinoff_prover]
#[verifier::rlimit(100)]
fn props_hi_vec(p: &BasicProperties) -> (r: Result<Vec<u8>, Error>)
    ensures
        match r {
            Ok(v) => {
                &&& opt_shortstr_wf(opt_bytes_v(p.content_type))
                &&& opt_shortstr_wf(opt_bytes_v(p.content_encoding))
                &&& match opt_table_v(p.headers) {
                    Some(t) => table_wf(t),
                    None => true,
                }
                &&& opt_shortstr_wf(opt_bytes_v(p.correlation_id))
                &&& opt_shortstr_wf(opt_bytes_v(p.reply_to))
                &&& opt_shortstr_wf(opt_bytes_v(p.expiration))
                &&& v@ == props_hi_bytes(p@)
            },
            Err(e) => !props_wf(p@) && e == Error::SerializeError,
        },
{
    let mut v: Vec<u8> = Vec::new();
    match w_opt_shortstr(&mut v, &p.content_type) {
        Ok(()) => {},
        Err(e) => {
            return Err(e);
        },
    }
    match w_opt_shortstr(&mut v, &p.content_encoding) {
        Ok(()) => {},
        Err(e) => {
            return Err(e);
        },
    }
    match w_opt_table(&mut v, &p.headers) {
        Ok(()) => {},
        Err(e) => {
            return Err(e);
        },
    }
    w_opt_u8(&mut v, &p.delivery_mode);
    w_opt_u8(&mut v, &p.priority);
    match w_opt_shortstr(&mut v, &p.correlation_id) {
        Ok(()) => {},
        Err(e) => {
            return Err(e);
        },
    }
    match w_opt_shortstr(&mut v, &p.reply_to) {
        Ok(()) => {},
        Err(e) => {
            return Err(e);
        },
    }
    match w_opt_shortstr(&mut v, &p.expiration) {
        Ok(()) => {},
        Err(e) => {
            return Err(e);
        },
    }
    proof {
        assert(v@ =~= props_hi_bytes(p@));
    }
    Ok(v)
}

/// Serialize the fields governed by the second flag octet.
#[verifier::spinoff_prover]
#[verifier::rlimit(100)]
fn props_lo_vec(p: &BasicProperties) -> (r: Result<Vec<u8>, Error>)
    ensures
        match r {
            Ok(v) => {
                &&& opt_shortstr_wf(opt_bytes_v(p.message_id))
                &&& opt_shortstr_wf(opt_bytes_v(p.message_type))
                &&& opt_shortstr_wf(opt_bytes_v(p.user_id))
                &&& opt_shortstr_wf(opt_bytes_v(p.app_id))
                &&& opt_shortstr_wf(opt_bytes_v(p.cluster_id))
                &&& v@ == props_lo_bytes(p@)
            },
            Err(e) => !props_wf(p@) && e == Error::SerializeError,
        },
{
    let mut v: Vec<u8> = Vec::new();
    match w_opt_shortstr(&mut v, &p.message_id) {
        Ok(()) => {},
        Err(e) => {
            return Err(e);
        },
    }
    w_opt_u64(&mut v, &p.timestamp);
    match w_opt_shortstr(&mut v, &p.message_type) {
        Ok(()) => {},
        Err(e) => {
            return Err(e);
        },
    }
    match w_opt_shortstr(&mut v, &p.user_id) {
        Ok(()) => {},
        Err(e) => {
            return Err(e);
        },
    }
    match w_opt_shortstr(&mut v, &p.app_id) {
        Ok(()) => {},
        Err(e) => {
            return Err(e);
        },
    }
    match w_opt_shortstr(&mut v, &p.cluster_id) {
        Ok(()) => {},
        Err(e) => {
            return Err(e);
        },
    }
    proof {
        assert(v@ =~= props_lo_bytes(p@));
    }
    Ok(v)
}

/// Serialize a property set: the two flag octets and the present fields.
#[verifier::spinoff_prover]
#[verifier::rlimit(100)]
fn props_vec(p: &BasicProperties) -> (r: Result<Vec<u8>, Error>)
    ensures
        match r {
            Ok(v) => props_wf(p@) && v@ == props_bytes(p@),
            Err(e) => !props_wf(p@) && e == Error::SerializeError,
        },
{
    let hi: u8 = (if p.expiration.is_some() { 1u8 } else { 0u8 })
        | (if p.reply_to.is_some() { 2u8 } else { 0u8 })
        | (if p.correlation_id.is_some() { 4u8 } else { 0u8 })
        | (if p.priority.is_some() { 8u8 } else { 0u8 })
        | (if p.delivery_mode.is_some() { 16u8 } else { 0u8 })
        | (if p.headers.is_some() { 32u8 } else { 0u8 })
        | (if p.content_encoding.is_some() { 64u8 } else { 0u8 })
        | (if p.content_type.is_some() { 128u8 } else { 0u8 });
    let lo: u8 = (if false { 1u8 } else { 0u8 })
        | (if false { 2u8 } else { 0u8 })
        | (if p.cluster_id.is_some() { 4u8 } else { 0u8 })
        | (if p.app_id.is_some() { 8u8 } else { 0u8 })
        | (if p.user_id.is_some() { 16u8 } else { 0u8 })
        | (if p.message_type.is_some() { 32u8 } else { 0u8 })
        | (if p.timestamp.is_some() { 64u8 } else { 0u8 })
        | (if p.message_id.is_some() { 128u8 } else { 0u8 });
    proof {
        assert(hi == props_flags_hi(p@));
        assert(lo == props_flags_lo(p@));
    }
    match props_hi_vec(p) {
        Ok(hb) => match props_lo_vec(p) {
            Ok(lb) => {
                let mut v: Vec<u8> = Vec::new();
                w_u8(&mut v, hi);
                w_u8(&mut v, lo);
                w_bytes(&mut v, &hb);
                w_bytes(&mut v, &lb);
                proof {
                    assert(v@ =~= props_bytes(p@));
                }
                Ok(v)
            },
            Err(e) => Err(e),
        },
        Err(e) => Err(e),
    }
}

/// The (class id, method id) pair of a method.
pub fn method_ids(m: &Method) -> (r: (u16, u16))
    ensures
        r == method_cm(m@),
{
    match m {
        Method::ConnectionStart { .. } => (10, 10),
        Method::ConnectionStartOk { .. } => (10, 11),
        Method::ConnectionTune { .. } => (10, 30),
        Method::ConnectionTuneOk { .. } => (10, 31),
        Method::ConnectionOpen { .. } => (10, 40),
        Method::ConnectionOpenOk { .. } => (10, 41),
        Method::ConnectionClose { .. } => (10, 50),
        Method::ConnectionCloseOk => (10, 51),
        Method::ChannelOpen { .. } => (20, 10),
        Method::ChannelOpenOk { .. } => (20, 11),
        Method::ChannelFlow { .. } => (20, 20),
        Method::ChannelFlowOk { .. } => (20, 21),
        Method::ChannelClose { .. } => (20, 40),
        Method::ChannelCloseOk => (20, 41),
        Method::AccessRequest { .. } => (30, 10),
        Method::AccessRequestOk { .. } => (30, 11),
        Method::ExchangeDeclare { .. } => (40, 10),
        Method::ExchangeDeclareOk => (40, 11),
        Method::ExchangeDelete { .. } => (40, 20),
        Method::ExchangeDeleteOk => (40, 21),
        Method::ExchangeBind { .. } => (40, 30),
        Method::ExchangeBindOk => (40, 31),
        Method::ExchangeUnbind { .. } => (40, 40),
        Method::ExchangeUnbindOk => (40, 51),
        Method::QueueDeclare { .. } => (50, 10),
        Method::QueueDeclareOk { .. } => (50, 11),
        Method::QueueBind { .. } => (50, 20),
        Method::QueueBindOk => (50, 21),
        Method::QueuePurge { .. } => (50, 30),
        Method::QueuePurgeOk { .. } => (50, 31),
        Method::QueueDelete { .. } => (50, 40),
        Method::QueueDeleteOk { .. } => (50, 41),
        Method::QueueUnbind { .. } => (50, 50),
        Method::QueueUnbindOk => (50, 51),
        Method::BasicQos { .. } => (60, 10),
        Method::BasicQosOk => (60, 11),
        Method::BasicConsume { .. } => (60, 20),
        Method::BasicConsumeOk { .. } => (60, 21),
        Method::BasicPublish { .. } => (60, 40),
        Method::BasicReturn { .. } => (60, 50),
        Method::BasicDeliver { .. } => (60, 60),
        Method::BasicGet { .. } => (60, 70),
        Method::BasicGetOk { .. } => (60, 71),
        Method::BasicGetEmpty { .. } => (60, 72),
        Method::BasicAck { .. } => (60, 80),
        Method::BasicReject { .. } => (60, 90),
        Method::BasicNack { .. } => (60, 120),
        Method::ConfirmSelect { .. } => (85, 10),
        Method::ConfirmSelectOk => (85, 11),
    }
}

/// Serialize a method's arguments, dispatching on its class.
fn args_vec(m: &Method) -> (r: Result<Vec<u8>, Error>)
    ensures
        match r {
            Ok(v) => method_wf(m@) && v@ == args_bytes(m@),
            Err(e) => !method_wf(m@) && e == Error::SerializeError,
        },
{
    let ids = method_ids(m);
    if ids.0 == 10 {
        args_vec_connection(m)
    } else if ids.0 == 20 {
        args_vec_channel(m)
    } else if ids.0 == 30 {
        args_vec_access(m)
    } else if ids.0 == 40 {
        args_vec_exchange(m)
    } else if ids.0 == 50 {
        args_vec_queue(m)
    } else if ids.0 == 60 {
        args_vec_basic(m)
    } else {
        args_vec_confirm(m)
    }
}

/// Append one serialized frame, or reject a malformed frame leaving the
/// buffer untouched.
pub fn encode_frame(f: &Frame, out: &mut Vec<u8>) -> (r: Result<(), Error>)
    ensures
        match r {
            Ok(()) => frame_wf(f@) && final(out)@ == old(out)@ + frame_bytes(f@),
            Err(e) => {
                &&& !frame_wf(f@)
                &&& final(out)@ == old(out)@
                &&& e == Error::SerializeError
            },
        },
{
    match f {
        Frame::ProtocolHeader => {
            w_u8(out, 65);
            w_u8(out, 77);
            w_u8(out, 81);
            w_u8(out, 80);
            w_u8(out, 0);
            w_u8(out, 0);
            w_u8(out, 9);
            w_u8(out, 1);
            proof {
                assert(out@ =~= old(out)@ + frame_bytes(f@));
            }
            Ok(())
        },
        Frame::Heartbeat(ch) => {
            w_u8(out, 8);
            w_u16(out, *ch);
            w_u32(out, 0);
            w_u8(out, 0xCE);
            proof {
                assert(frame_payload(f@).len() == 0);
                assert(enc_u32(0) == enc_u32(frame_payload(f@).len() as u32));
                assert(out@ =~= old(out)@ + frame_bytes(f@));
            }
            Ok(())
        },
        Frame::Method(ch, m) => {
            let ids = method_ids(m);
            match args_vec(m) {
                Ok(args) => {
                    let mut payload: Vec<u8> = Vec::new();
                    w_u16(&mut payload, ids.0);
                    w_u16(&mut payload, ids.1);
                    w_bytes(&mut payload, &args);
                    proof {
                        assert(payload@ =~= method_payload(m@));
                    }
                    if payload.len() as u64 >= 0x1_0000_0000u64 {
                        Err(Error::SerializeError)
                    } else {
                        w_u8(out, 1);
                        w_u16(out, *ch);
                        w_u32(out, payload.len() as u32);
                        w_bytes(out, &payload);
                        w_u8(out, 0xCE);
                        proof {
                            assert(out@ =~= old(out)@ + frame_bytes(f@));
                        }
                        Ok(())
                    }
                },
                Err(e) => Err(e),
            }
        },
        Frame::Header(ch, class_id, h) => {
            match props_vec(&h.properties) {
                Ok(props) => {
                    let mut payload: Vec<u8> = Vec::new();
                    w_u16(&mut payload, *class_id);
                    w_u16(&mut payload, 0);
                    w_u64(&mut payload, h.body_size);
                    w_bytes(&mut payload, &props);
                    proof {
                        assert(payload@ =~= header_payload(*class_id, h@));
                    }
                    if payload.len() as u64 >= 0x1_0000_0000u64 {
                        Err(Error::SerializeError)
                    } else {
                        w_u8(out, 2);
                        w_u16(out, *ch);
                        w_u32(out, payload.len() as u32);
                        w_bytes(out, &payload);
                        w_u8(out, 0xCE);
                        proof {
                            assert(out@ =~= old(out)@ + frame_bytes(f@));
                        }
                        Ok(())
                    }
                },
                Err(e) => Err(e),
            }
        },
        Frame::Body(ch, data) => {
            if data.len() as u64 >= 0x1_0000_0000u64 {
                Err(Error::SerializeError)
            } else {
                w_u8(out, 3);
                w_u16(out, *ch);
                w_u32(out, data.len() as u32);
                w_bytes(out, data);
                w_u8(out, 0xCE);
                proof {
                    assert(out@ =~= old(out)@ + frame_bytes(f@));
                }
                Ok(())
            }
        },
    }
}

#[verifier::spinoff_prover]
#[verifier::rlimit(100)]
fn args_vec_connection(m: &Method) -> (r: Result<Vec<u8>, Error>)
    requires
        method_cm(m@).0 == 10,
    ensures
        match r {
            Ok(v) => method_wf(m@) && v@ == args_bytes(m@),
            Err(e) => !method_wf(m@) && e == Error::SerializeError,
        },
{
    match m {
        Method::ConnectionStart { version_major, version_minor, server_properties, mechanisms, locales } => {
            let mut v: Vec<u8> = Vec::new();
            w_u8(&mut v, *version_major);
            w_u8(&mut v, *version_minor);
            match w_table(&mut v, server_properties) {
                Ok(()) => {},
                Err(e) => {
                    return Err(e);
                },
            }
            if mechanisms.len() as u64 >= 0x1_0000_0000u64 {
                return Err(Error::SerializeError);
            }
            w_longstr(&mut v, mechanisms);
            if locales.len() as u64 >= 0x1_0000_0000u64 {
                return Err(Error::SerializeError);
            }
            w_longstr(&mut v, locales);
            proof {
                assert(v@ =~= args_bytes(m@));
            }
            Ok(v)
        },
        Method::ConnectionStartOk { client_properties, mechanism, response, locale } => {
            let mut v: Vec<u8> = Vec::new();
            match w_table(&mut v, client_properties) {
                Ok(()) => {},
                Err(e) => {
                    return Err(e);
                },
            }
            if mechanism.len() > 255 {
                return Err(Error::SerializeError);
            }
            w_shortstr(&mut v, mechanism);
            if response.len() as u64 >= 0x1_0000_0000u64 {
                return Err(Error::SerializeError);
            }
            w_longstr(&mut v, response);
            if locale.len() > 255 {
                return Err(Error::SerializeError);
            }
            w_shortstr(&mut v, locale);
            proof {
                assert(v@ =~= args_bytes(m@));
            }
            Ok(v)
        },
        Method::ConnectionTune { channel_max, frame_max, heartbeat } => {
            let mut v: Vec<u8> = Vec::new();
            w_u16(&mut v, *channel_max);
            w_u32(&mut v, *frame_max);
            w_u16(&mut v, *heartbeat);
            proof {
                assert(v@ =~= args_bytes(m@));
            }
            Ok(v)
        },
        Method::ConnectionTuneOk { channel_max, frame_max, heartbeat } => {
            let mut v: Vec<u8> = Vec::new();
            w_u16(&mut v, *channel_max);
            w_u32(&mut v, *frame_max);
            w_u16(&mut v, *heartbeat);
            proof {
                assert(v@ =~= args_bytes(m@));
            }
            Ok(v)
        },
        Method::ConnectionOpen { virtual_host, capabilities, insist } => {
            let mut v: Vec<u8> = Vec::new();
            if virtual_host.len() > 255 {
                return Err(Error::SerializeError);
            }
            w_shortstr(&mut v, virtual_host);
            if capabilities.len() > 255 {
                return Err(Error::SerializeError);
            }
            w_shortstr(&mut v, capabilities);
            let fl: u8 = (if *insist { 1u8 } else { 0u8 })
                | (if false { 2u8 } else { 0u8 })
                | (if false { 4u8 } else { 0u8 })
                | (if false { 8u8 } else { 0u8 })
                | (if false { 16u8 } else { 0u8 })
                | (if false { 32u8 } else { 0u8 })
                | (if false { 64u8 } else { 0u8 })
                | (if false { 128u8 } else { 0u8 });
            proof {
                assert(fl == bits_byte(*insist, false, false, false, false, false, false, false));
            }
            w_u8(&mut v, fl);
            proof {
                assert(v@ =~= args_bytes(m@));
            }
            Ok(v)
        },
        Method::ConnectionOpenOk { known_hosts } => {
            let mut v: Vec<u8> = Vec::new();
            if known_hosts.len() > 255 {
                return Err(Error::SerializeError);
            }
            w_shortstr(&mut v, known_hosts);
            proof {
                assert(v@ =~= args_bytes(m@));
            }
            Ok(v)
        },
        Method::ConnectionClose { reply_code, reply_text, class_id, method_id } => {
            let mut v: Vec<u8> = Vec::new();
            w_u16(&mut v, *reply_code);
            if reply_text.len() > 255 {
                return Err(Error::SerializeError);
            }
            w_shortstr(&mut v, reply_text);
            w_u16(&mut v, *class_id);
            w_u16(&mut v, *method_id);
            proof {
                assert(v@ =~= args_bytes(m@));
            }
            Ok(v)
        },
        Method::ConnectionCloseOk => {
            let mut v: Vec<u8> = Vec::new();
            proof {
                assert(v@ =~= args_bytes(m@));
            }
            Ok(v)
        },
        _ => {
            proof {
                assert(false);
            }
            Err(Error::SerializeError)
        },
    }
}

#[verifier::spinoff_prover]
#[verifier::rlimit(100)]
fn args_vec_channel(m: &Method) -> (r: Result<Vec<u8>, Error>)
    requires
        method_cm(m@).0 == 20,
    ensures
        match r {
            Ok(v) => method_wf(m@) && v@ == args_bytes(m@),
            Err(e) => !method_wf(m@) && e == Error::SerializeError,
        },
{
    match m {
        Method::ChannelOpen { out_of_band } => {
            let mut v: Vec<u8> = Vec::new();
            if out_of_band.len() > 255 {
                return Err(Error::SerializeError);
            }
            w_shortstr(&mut v, out_of_band);
            proof {
                assert(v@ =~= args_bytes(m@));
            }
            Ok(v)
        },
        Method::ChannelOpenOk { channel_id } => {
            let mut v: Vec<u8> = Vec::new();
            if channel_id.len() as u64 >= 0x1_0000_0000u64 {
                return Err(Error::SerializeError);
            }
            w_longstr(&mut v, channel_id);
            proof {
                assert(v@ =~= args_bytes(m@));
            }
            Ok(v)
        },
        Method::ChannelFlow { active } => {
            let mut v: Vec<u8> = Vec::new();
            let fl: u8 = (if *active { 1u8 } else { 0u8 })
                | (if false { 2u8 } else { 0u8 })
                | (if false { 4u8 } else { 0u8 })
                | (if false { 8u8 } else { 0u8 })
                | (if false { 16u8 } else { 0u8 })
                | (if false { 32u8 } else { 0u8 })
                | (if false { 64u8 } else { 0u8 })
                | (if false { 128u8 } else { 0u8 });
            proof {
                assert(fl == bits_byte(*active, false, false, false, false, false, false, false));
            }
            w_u8(&mut v, fl);
            proof {
                assert(v@ =~= args_bytes(m@));
            }
            Ok(v)
        },
        Method::ChannelFlowOk { active } => {
            let mut v: Vec<u8> = Vec::new();
            let fl: u8 = (if *active { 1u8 } else { 0u8 })
                | (if false { 2u8 } else { 0u8 })
                | (if false { 4u8 } else { 0u8 })
                | (if false { 8u8 } else { 0u8 })
                | (if false { 16u8 } else { 0u8 })
                | (if false { 32u8 } else { 0u8 })
                | (if false { 64u8 } else { 0u8 })
                | (if false { 128u8 } else { 0u8 });
            proof {
                assert(fl == bits_byte(*active, false, false, false, false, false, false, false));
            }
            w_u8(&mut v, fl);
            proof {
                assert(v@ =~= args_bytes(m@));
            }
            Ok(v)
        },
        Method::ChannelClose { reply_code, reply_text, class_id, method_id } => {
            let mut v: Vec<u8> = Vec::new();
            w_u16(&mut v, *reply_code);
            if reply_text.len() > 255 {
                return Err(Error::SerializeError);
            }
            w_shortstr(&mut v, reply_text);
            w_u16(&mut v, *class_id);
            w_u16(&mut v, *method_id);
            proof {
                assert(v@ =~= args_bytes(m@));
            }
            Ok(v)
        },
        Method::ChannelCloseOk => {
            let mut v: Vec<u8> = Vec::new();
            proof {
                assert(v@ =~= args_bytes(m@));
            }
            Ok(v)
        },
        _ => {
            proof {
                assert(false);
            }
            Err(Error::SerializeError)
        },
    }
}

#[verifier::spinoff_prover]
#[verifier::rlimit(100)]
fn args_vec_access(m: &Method) -> (r: Result<Vec<u8>, Error>)
    requires
        method_cm(m@).0 == 30,
    ensures
        match r {
            Ok(v) => method_wf(m@) && v@ == args_bytes(m@),
            Err(e) => !method_wf(m@) && e == Error::SerializeError,
        },
{
    match m {
        Method::AccessRequest { realm, exclusive, passive, active, write, read } => {
            let mut v: Vec<u8> = Vec::new();
            if realm.len() > 255 {
                return Err(Error::SerializeError);
            }
            w_shortstr(&mut v, realm);
            let fl: u8 = (if *exclusive { 1u8 } else { 0u8 })
                | (if *passive { 2u8 } else { 0u8 })
                | (if *active { 4u8 } else { 0u8 })
                | (if *write { 8u8 } else { 0u8 })
                | (if *read { 16u8 } else { 0u8 })
                | (if false { 32u8 } else { 0u8 })
                | (if false { 64u8 } else { 0u8 })
                | (if false { 128u8 } else { 0u8 });
            proof {
                assert(fl == bits_byte(*exclusive, *passive, *active, *write, *read, false, false, false));
            }
            w_u8(&mut v, fl);
            proof {
                assert(v@ =~= args_bytes(m@));
            }
            Ok(v)
        },
        Method::AccessRequestOk { ticket } => {
            let mut v: Vec<u8> = Vec::new();
            w_u16(&mut v, *ticket);
            proof {
                assert(v@ =~= args_bytes(m@));
            }
            Ok(v)
        },
        _ => {
            proof {
                assert(false);
            }
            Err(Error::SerializeError)
        },
    }
}

#[verifier::spinoff_prover]
#[verifier::rlimit(100)]
fn args_vec_exchange(m: &Method) -> (r: Result<Vec<u8>, Error>)
    requires
        method_cm(m@).0 == 40,
    ensures
        match r {
            Ok(v) => method_wf(m@) && v@ == args_bytes(m@),
            Err(e) => !method_wf(m@) && e == Error::SerializeError,
        },
{
    match m {
        Method::ExchangeDeclare { ticket, exchange, exchange_type, passive, durable, auto_delete, internal, nowait, arguments } => {
            let mut v: Vec<u8> = Vec::new();
            w_u16(&mut v, *ticket);
            if exchange.len() > 255 {
                return Err(Error::SerializeError);
            }
            w_shortstr(&mut v, exchange);
            if exchange_type.len() > 255 {
                return Err(Error::SerializeError);
            }
            w_shortstr(&mut v, exchange_type);
            let fl: u8 = (if *passive { 1u8 } else { 0u8 })
                | (if *durable { 2u8 } else { 0u8 })
                | (if *auto_delete { 4u8 } else { 0u8 })
                | (if *internal { 8u8 } else { 0u8 })
                | (if *nowait { 16u8 } else { 0u8 })
                | (if false { 32u8 } else { 0u8 })
                | (if false { 64u8 } else { 0u8 })
                | (if false { 128u8 } else { 0u8 });
            proof {
                assert(fl == bits_byte(*passive, *durable, *auto_delete, *internal, *nowait, false, false, false));
            }
            w_u8(&mut v, fl);
            match w_table(&mut v, arguments) {
                Ok(()) => {},
                Err(e) => {
                    return Err(e);
                },
            }
            proof {
                assert(v@ =~= args_bytes(m@));
            }
            Ok(v)
        },
        Method::ExchangeDeclareOk => {
            let mut v: Vec<u8> = Vec::new();
            proof {
                assert(v@ =~= args_bytes(m@));
            }
            Ok(v)
        },
        Method::ExchangeDelete { ticket, exchange, if_unused, nowait } => {
            let mut v: Vec<u8> = Vec::new();
            w_u16(&mut v, *ticket);
            if exchange.len() > 255 {
                return Err(Error::SerializeError);
            }
            w_shortstr(&mut v, exchange);
            let fl: u8 = (if *if_unused { 1u8 } else { 0u8 })
                | (if *nowait { 2u8 } else { 0u8 })
                | (if false { 4u8 } else { 0u8 })
                | (if false { 8u8 } else { 0u8 })
                | (if false { 16u8 } else { 0u8 })
                | (if false { 32u8 } else { 0u8 })
                | (if false { 64u8 } else { 0u8 })
                | (if false { 128u8 } else { 0u8 });
            proof {
                assert(fl == bits_byte(*if_unused, *nowait, false, false, false, false, false, false));
            }
            w_u8(&mut v, fl);
            proof {
                assert(v@ =~= args_bytes(m@));
            }
            Ok(v)
        },
        Method::ExchangeDeleteOk => {
            let mut v: Vec<u8> = Vec::new();
            proof {
                assert(v@ =~= args_bytes(m@));
            }
            Ok(v)
        },
        Method::ExchangeBind { ticket, destination, source, routing_key, nowait, arguments } => {
            let mut v: Vec<u8> = Vec::new();
            w_u16(&mut v, *ticket);
            if destination.len() > 255 {
                return Err(Error::SerializeError);
            }
            w_shortstr(&mut v, destination);
            if source.len() > 255 {
                return Err(Error::SerializeError);
            }
            w_shortstr(&mut v, source);
            if routing_key.len() > 255 {
                return Err(Error::SerializeError);
            }
            w_shortstr(&mut v, routing_key);
            let fl: u8 = (if *nowait { 1u8 } else { 0u8 })
                | (if false { 2u8 } else { 0u8 })
                | (if false { 4u8 } else { 0u8 })
                | (if false { 8u8 } else { 0u8 })
                | (if false { 16u8 } else { 0u8 })
                | (if false { 32u8 } else { 0u8 })
                | (if false { 64u8 } else { 0u8 })
                | (if false { 128u8 } else { 0u8 });
            proof {
                assert(fl == bits_byte(*nowait, false, false, false, false, false, false, false));
            }
            w_u8(&mut v, fl);
            match w_table(&mut v, arguments) {
                Ok(()) => {},
                Err(e) => {
                    return Err(e);
                },
            }
            proof {
                assert(v@ =~= args_bytes(m@));
            }
            Ok(v)
        },
        Method::ExchangeBindOk => {
            let mut v: Vec<u8> = Vec::new();
            proof {
                assert(v@ =~= args_bytes(m@));
            }
            Ok(v)
        },
        Method::ExchangeUnbind { ticket, destination, source, routing_key, nowait, arguments } => {
            let mut v: Vec<u8> = Vec::new();
            w_u16(&mut v, *ticket);
            if destination.len() > 255 {
                return Err(Error::SerializeError);
            }
            w_shortstr(&mut v, destination);
            if source.len() > 255 {
                return Err(Error::SerializeError);
            }
            w_shortstr(&mut v, source);
            if routing_key.len() > 255 {
                return Err(Error::SerializeError);
            }
            w_shortstr(&mut v, routing_key);
            let fl: u8 = (if *nowait { 1u8 } else { 0u8 })
                | (if false { 2u8 } else { 0u8 })
                | (if false { 4u8 } else { 0u8 })
                | (if false { 8u8 } else { 0u8 })
                | (if false { 16u8 } else { 0u8 })
                | (if false { 32u8 } else { 0u8 })
                | (if false { 64u8 } else { 0u8 })
                | (if false { 128u8 } else { 0u8 });
            proof {
                assert(fl == bits_byte(*nowait, false, false, false, false, false, false, false));
            }
            w_u8(&mut v, fl);
            match w_table(&mut v, arguments) {
                Ok(()) => {},
                Err(e) => {
                    return Err(e);
                },
            }
            proof {
                assert(v@ =~= args_bytes(m@));
            }
            Ok(v)
        },
        Method::ExchangeUnbindOk => {
            let mut v: Vec<u8> = Vec::new();
            proof {
                assert(v@ =~= args_bytes(m@));
            }
            Ok(v)
        },
        _ => {
            proof {
                assert(false);
            }
            Err(Error::SerializeError)
        },
    }
}

#[verifier::spinoff_prover]
#[verifier::rlimit(100)]
fn args_vec_queue(m: &Method) -> (r: Result<Vec<u8>, Error>)
    requires
        method_cm(m@).0 == 50,
    ensures
        match r {
            Ok(v) => method_wf(m@) && v@ == args_bytes(m@),
            Err(e) => !method_wf(m@) && e == Error::SerializeError,
        },
{
    match m {
        Method::QueueDeclare { ticket, queue, passive, durable, exclusive, auto_delete, nowait, arguments } => {
            let mut v: Vec<u8> = Vec::new();
            w_u16(&mut v, *ticket);
            if queue.len() > 255 {
                return Err(Error::SerializeError);
            }
            w_shortstr(&mut v, queue);
            let fl: u8 = (if *passive { 1u8 } else { 0u8 })
                | (if *durable { 2u8 } else { 0u8 })
                | (if *exclusive { 4u8 } else { 0u8 })
                | (if *auto_delete { 8u8 } else { 0u8 })
                | (if *nowait { 16u8 } else { 0u8 })
                | (if false { 32u8 } else { 0u8 })
                | (if false { 64u8 } else { 0u8 })
                | (if false { 128u8 } else { 0u8 });
            proof {
                assert(fl == bits_byte(*passive, *durable, *exclusive, *auto_delete, *nowait, false, false, false));
            }
            w_u8(&mut v, fl);
            match w_table(&mut v, arguments) {
                Ok(()) => {},
                Err(e) => {
                    return Err(e);
                },
            }
            proof {
                assert(v@ =~= args_bytes(m@));
            }
            Ok(v)
        },
        Method::QueueDeclareOk { queue, message_count, consumer_count } => {
            let mut v: Vec<u8> = Vec::new();
            if queue.len() > 255 {
                return Err(Error::SerializeError);
            }
            w_shortstr(&mut v, queue);
            w_u32(&mut v, *message_count);
            w_u32(&mut v, *consumer_count);
            proof {
                assert(v@ =~= args_bytes(m@));
            }
            Ok(v)
        },
        Method::QueueBind { ticket, queue, exchange, routing_key, nowait, arguments } => {
            let mut v: Vec<u8> = Vec::new();
            w_u16(&mut v, *ticket);
            if queue.len() > 255 {
                return Err(Error::SerializeError);
            }
            w_shortstr(&mut v, queue);
            if exchange.len() > 255 {
                return Err(Error::SerializeError);
            }
            w_shortstr(&mut v, exchange);
            if routing_key.len() > 255 {
                return Err(Error::SerializeError);
            }
            w_shortstr(&mut v, routing_key);
            let fl: u8 = (if *nowait { 1u8 } else { 0u8 })
                | (if false { 2u8 } else { 0u8 })
                | (if false { 4u8 } else { 0u8 })
                | (if false { 8u8 } else { 0u8 })
                | (if false { 16u8 } else { 0u8 })
                | (if false { 32u8 } else { 0u8 })
                | (if false { 64u8 } else { 0u8 })
                | (if false { 128u8 } else { 0u8 });
            proof {
                assert(fl == bits_byte(*nowait, false, false, false, false, false, false, false));
            }
            w_u8(&mut v, fl);
            match w_table(&mut v, arguments) {
                Ok(()) => {},
                Err(e) => {
                    return Err(e);
                },
            }
            proof {
                assert(v@ =~= args_bytes(m@));
            }
            Ok(v)
        },
        Method::QueueBindOk => {
            let mut v: Vec<u8> = Vec::new();
            proof {
                assert(v@ =~= args_bytes(m@));
            }
            Ok(v)
        },
        Method::QueuePurge { ticket, queue, nowait } => {
            let mut v: Vec<u8> = Vec::new();
            w_u16(&mut v, *ticket);
            if queue.len() > 255 {
                return Err(Error::SerializeError);
            }
            w_shortstr(&mut v, queue);
            let fl: u8 = (if *nowait { 1u8 } else { 0u8 })
                | (if false { 2u8 } else { 0u8 })
                | (if false { 4u8 } else { 0u8 })
                | (if false { 8u8 } else { 0u8 })
                | (if false { 16u8 } else { 0u8 })
                | (if false { 32u8 } else { 0u8 })
                | (if false { 64u8 } else { 0u8 })
                | (if false { 128u8 } else { 0u8 });
            proof {
                assert(fl == bits_byte(*nowait, false, false, false, false, false, false, false));
            }
            w_u8(&mut v, fl);
            proof {
                assert(v@ =~= args_bytes(m@));
            }
            Ok(v)
        },
        Method::QueuePurgeOk { message_count } => {
            let mut v: Vec<u8> = Vec::new();
            w_u32(&mut v, *message_count);
            proof {
                assert(v@ =~= args_bytes(m@));
            }
            Ok(v)
        },
        Method::QueueDelete { ticket, queue, if_unused, if_empty, nowait } => {
            let mut v: Vec<u8> = Vec::new();
            w_u16(&mut v, *ticket);
            if queue.len() > 255 {
                return Err(Error::SerializeError);
            }
            w_shortstr(&mut v, queue);
            let fl: u8 = (if *if_unused { 1u8 } else { 0u8 })
                | (if *if_empty { 2u8 } else { 0u8 })
                | (if *nowait { 4u8 } else { 0u8 })
                | (if false { 8u8 } else { 0u8 })
                | (if false { 16u8 } else { 0u8 })
                | (if false { 32u8 } else { 0u8 })
                | (if false { 64u8 } else { 0u8 })
                | (if false { 128u8 } else { 0u8 });
            proof {
                assert(fl == bits_byte(*if_unused, *if_empty, *nowait, false, false, false, false, false));
            }
            w_u8(&mut v, fl);
            proof {
                assert(v@ =~= args_bytes(m@));
            }
            Ok(v)
        },
        Method::QueueDeleteOk { message_count } => {
            let mut v: Vec<u8> = Vec::new();
            w_u32(&mut v, *message_count);
            proof {
                assert(v@ =~= args_bytes(m@));
            }
            Ok(v)
        },
        Method::QueueUnbind { ticket, queue, exchange, routing_key, arguments } => {
            let mut v: Vec<u8> = Vec::new();
            w_u16(&mut v, *ticket);
            if queue.len() > 255 {
                return Err(Error::SerializeError);
            }
            w_shortstr(&mut v, queue);
            if exchange.len() > 255 {
                return Err(Error::SerializeError);
            }
            w_shortstr(&mut v, exchange);
            if routing_key.len() > 255 {
                return Err(Error::SerializeError);
            }
            w_shortstr(&mut v, routing_key);
            match w_table(&mut v, arguments) {
                Ok(()) => {},
                Err(e) => {
                    return Err(e);
                },
            }
            proof {
                assert(v@ =~= args_bytes(m@));
            }
            Ok(v)
        },
        Method::QueueUnbindOk => {
            let mut v: Vec<u8> = Vec::new();
            proof {
                assert(v@ =~= args_bytes(m@));
            }
            Ok(v)
        },
        _ => {
            proof {
                assert(false);
            }
            Err(Error::SerializeError)
        },
    }
}

#[verifier::spinoff_prover]
#[verifier::rlimit(100)]
fn args_vec_basic(m: &Method) -> (r: Result<Vec<u8>, Error>)
    requires
        method_cm(m@).0 == 60,
    ensures
        match r {
            Ok(v) => method_wf(m@) && v@ == args_bytes(m@),
            Err(e) => !method_wf(m@) && e == Error::SerializeError,
        },
{
    match m {
        Method::BasicQos { prefetch_size, prefetch_count, global } => {
            let mut v: Vec<u8> = Vec::new();
            w_u32(&mut v, *prefetch_size);
            w_u16(&mut v, *prefetch_count);
            let fl: u8 = (if *global { 1u8 } else { 0u8 })
                | (if false { 2u8 } else { 0u8 })
                | (if false { 4u8 } else { 0u8 })
                | (if false { 8u8 } else { 0u8 })
                | (if false { 16u8 } else { 0u8 })
                | (if false { 32u8 } else { 0u8 })
                | (if false { 64u8 } else { 0u8 })
                | (if false { 128u8 } else { 0u8 });
            proof {
                assert(fl == bits_byte(*global, false, false, false, false, false, false, false));
            }
            w_u8(&mut v, fl);
            proof {
                assert(v@ =~= args_bytes(m@));
            }
            Ok(v)
        },
        Method::BasicQosOk => {
            let mut v: Vec<u8> = Vec::new();
            proof {
                assert(v@ =~= args_bytes(m@));
            }
            Ok(v)
        },
        Method::BasicConsume { ticket, queue, consumer_tag, no_local, no_ack, exclusive, nowait, arguments } => {
            let mut v: Vec<u8> = Vec::new();
            w_u16(&mut v, *ticket);
            if queue.len() > 255 {
                return Err(Error::SerializeError);
            }
            w_shortstr(&mut v, queue);
            if consumer_tag.len() > 255 {
                return Err(Error::SerializeError);
            }
            w_shortstr(&mut v, consumer_tag);
            let fl: u8 = (if *no_local { 1u8 } else { 0u8 })
                | (if *no_ack { 2u8 } else { 0u8 })
                | (if *exclusive { 4u8 } else { 0u8 })
                | (if *nowait { 8u8 } else { 0u8 })
                | (if false { 16u8 } else { 0u8 })
                | (if false { 32u8 } else { 0u8 })
                | (if false { 64u8 } else { 0u8 })
                | (if false { 128u8 } else { 0u8 });
            proof {
                assert(fl == bits_byte(*no_local, *no_ack, *exclusive, *nowait, false, false, false, false));
            }
            w_u8(&mut v, fl);
            match w_table(&mut v, arguments) {
                Ok(()) => {},
                Err(e) => {
                    return Err(e);
                },
            }
            proof {
                assert(v@ =~= args_bytes(m@));
            }
            Ok(v)
        },
        Method::BasicConsumeOk { consumer_tag } => {
            let mut v: Vec<u8> = Vec::new();
            if consumer_tag.len() > 255 {
                return Err(Error::SerializeError);
            }
            w_shortstr(&mut v, consumer_tag);
            proof {
                assert(v@ =~= args_bytes(m@));
            }
            Ok(v)
        },
        Method::BasicPublish { ticket, exchange, routing_key, mandatory, immediate } => {
            let mut v: Vec<u8> = Vec::new();
            w_u16(&mut v, *ticket);
            if exchange.len() > 255 {
                return Err(Error::SerializeError);
            }
            w_shortstr(&mut v, exchange);
            if routing_key.len() > 255 {
                return Err(Error::SerializeError);
            }
            w_shortstr(&mut v, routing_key);
            let fl: u8 = (if *mandatory { 1u8 } else { 0u8 })
                | (if *immediate { 2u8 } else { 0u8 })
                | (if false { 4u8 } else { 0u8 })
                | (if false { 8u8 } else { 0u8 })
                | (if false { 16u8 } else { 0u8 })
                | (if false { 32u8 } else { 0u8 })
                | (if false { 64u8 } else { 0u8 })
                | (if false { 128u8 } else { 0u8 });
            proof {
                assert(fl == bits_byte(*mandatory, *immediate, false, false, false, false, false, false));
            }
            w_u8(&mut v, fl);
            proof {
                assert(v@ =~= args_bytes(m@));
            }
            Ok(v)
        },
        Method::BasicReturn { reply_code, reply_text, exchange, routing_key } => {
            let mut v: Vec<u8> = Vec::new();
            w_u16(&mut v, *reply_code);
            if reply_text.len() > 255 {
                return Err(Error::SerializeError);
            }
            w_shortstr(&mut v, reply_text);
            if exchange.len() > 255 {
                return Err(Error::SerializeError);
            }
            w_shortstr(&mut v, exchange);
            if routing_key.len() > 255 {
                return Err(Error::SerializeError);
            }
            w_shortstr(&mut v, routing_key);
            proof {
                assert(v@ =~= args_bytes(m@));
            }
            Ok(v)
        },
        Method::BasicDeliver { consumer_tag, delivery_tag, redelivered, exchange, routing_key } => {
            let mut v: Vec<u8> = Vec::new();
            if consumer_tag.len() > 255 {
                return Err(Error::SerializeError);
            }
            w_shortstr(&mut v, consumer_tag);
            w_u64(&mut v, *delivery_tag);
            let fl: u8 = (if *redelivered { 1u8 } else { 0u8 })
                | (if false { 2u8 } else { 0u8 })
                | (if false { 4u8 } else { 0u8 })
                | (if false { 8u8 } else { 0u8 })
                | (if false { 16u8 } else { 0u8 })
                | (if false { 32u8 } else { 0u8 })
                | (if false { 64u8 } else { 0u8 })
                | (if false { 128u8 } else { 0u8 });
            proof {
                assert(fl == bits_byte(*redelivered, false, false, false, false, false, false, false));
            }
            w_u8(&mut v, fl);
            if exchange.len() > 255 {
                return Err(Error::SerializeError);
            }
            w_shortstr(&mut v, exchange);
            if routing_key.len() > 255 {
                return Err(Error::SerializeError);
            }
            w_shortstr(&mut v, routing_key);
            proof {
                assert(v@ =~= args_bytes(m@));
            }
            Ok(v)
        },
        Method::BasicGet { ticket, queue, no_ack } => {
            let mut v: Vec<u8> = Vec::new();
            w_u16(&mut v, *ticket);
            if queue.len() > 255 {
                return Err(Error::SerializeError);
            }
            w_shortstr(&mut v, queue);
            let fl: u8 = (if *no_ack { 1u8 } else { 0u8 })
                | (if false { 2u8 } else { 0u8 })
                | (if false { 4u8 } else { 0u8 })
                | (if false { 8u8 } else { 0u8 })
                | (if false { 16u8 } else { 0u8 })
                | (if false { 32u8 } else { 0u8 })
                | (if false { 64u8 } else { 0u8 })
                | (if false { 128u8 } else { 0u8 });
            proof {
                assert(fl == bits_byte(*no_ack, false, false, false, false, false, false, false));
            }
            w_u8(&mut v, fl);
            proof {
                assert(v@ =~= args_bytes(m@));
            }
            Ok(v)
        },
        Method::BasicGetOk { delivery_tag, redelivered, exchange, routing_key, message_count } => {
            let mut v: Vec<u8> = Vec::new();
            w_u64(&mut v, *delivery_tag);
            let fl: u8 = (if *redelivered { 1u8 } else { 0u8 })
                | (if false { 2u8 } else { 0u8 })
                | (if false { 4u8 } else { 0u8 })
                | (if false { 8u8 } else { 0u8 })
                | (if false { 16u8 } else { 0u8 })
                | (if false { 32u8 } else { 0u8 })
                | (if false { 64u8 } else { 0u8 })
                | (if false { 128u8 } else { 0u8 });
            proof {
                assert(fl == bits_byte(*redelivered, false, false, false, false, false, false, false));
            }
            w_u8(&mut v, fl);
            if exchange.len() > 255 {
                return Err(Error::SerializeError);
            }
            w_shortstr(&mut v, exchange);
            if routing_key.len() > 255 {
                return Err(Error::SerializeError);
            }
            w_shortstr(&mut v, routing_key);
            w_u32(&mut v, *message_count);
            proof {
                assert(v@ =~= args_bytes(m@));
            }
            Ok(v)
        },
        Method::BasicGetEmpty { cluster_id } => {
            let mut v: Vec<u8> = Vec::new();
            if cluster_id.len() > 255 {
                return Err(Error::SerializeError);
            }
            w_shortstr(&mut v, cluster_id);
            proof {
                assert(v@ =~= args_bytes(m@));
            }
            Ok(v)
        },
        Method::BasicAck { delivery_tag, multiple } => {
            let mut v: Vec<u8> = Vec::new();
            w_u64(&mut v, *delivery_tag);
            let fl: u8 = (if *multiple { 1u8 } else { 0u8 })
                | (if false { 2u8 } else { 0u8 })
                | (if false { 4u8 } else { 0u8 })
                | (if false { 8u8 } else { 0u8 })
                | (if false { 16u8 } else { 0u8 })
                | (if false { 32u8 } else { 0u8 })
                | (if false { 64u8 } else { 0u8 })
                | (if false { 128u8 } else { 0u8 });
            proof {
                assert(fl == bits_byte(*multiple, false, false, false, false, false, false, false));
            }
            w_u8(&mut v, fl);
            proof {
                assert(v@ =~= args_bytes(m@));
            }
            Ok(v)
        },
        Method::BasicReject { delivery_tag, requeue } => {
            let mut v: Vec<u8> = Vec::new();
            w_u64(&mut v, *delivery_tag);
            let fl: u8 = (if *requeue { 1u8 } else { 0u8 })
                | (if false { 2u8 } else { 0u8 })
                | (if false { 4u8 } else { 0u8 })
                | (if false { 8u8 } else { 0u8 })
                | (if false { 16u8 } else { 0u8 })
                | (if false { 32u8 } else { 0u8 })
                | (if false { 64u8 } else { 0u8 })
                | (if false { 128u8 } else { 0u8 });
            proof {
                assert(fl == bits_byte(*requeue, false, false, false, false, false, false, false));
            }
            w_u8(&mut v, fl);
            proof {
                assert(v@ =~= args_bytes(m@));
            }
            Ok(v)
        },
        Method::BasicNack { delivery_tag, multiple, requeue } => {
            let mut v: Vec<u8> = Vec::new();
            w_u64(&mut v, *delivery_tag);
            let fl: u8 = (if *multiple { 1u8 } else { 0u8 })
                | (if *requeue { 2u8 } else { 0u8 })
                | (if false { 4u8 } else { 0u8 })
                | (if false { 8u8 } else { 0u8 })
                | (if false { 16u8 } else { 0u8 })
                | (if false { 32u8 } else { 0u8 })
                | (if false { 64u8 } else { 0u8 })
                | (if false { 128u8 } else { 0u8 });
            proof {
                assert(fl == bits_byte(*multiple, *requeue, false, false, false, false, false, false));
            }
            w_u8(&mut v, fl);
            proof {
                assert(v@ =~= args_bytes(m@));
            }
            Ok(v)
        },
        _ => {
            proof {
                assert(false);
            }
            Err(Error::SerializeError)
        },
    }
}

#[verifier::spinoff_prover]
#[verifier::rlimit(100)]
fn args_vec_confirm(m: &Method) -> (r: Result<Vec<u8>, Error>)
    requires
        method_cm(m@).0 == 85,
    ensures
        match r {
            Ok(v) => method_wf(m@) && v@ == args_bytes(m@),
            Err(e) => !method_wf(m@) && e == Error::SerializeError,
        },
{
    match m {
        Method::ConfirmSelect { nowait } => {
            let mut v: Vec<u8> = Vec::new();
            let fl: u8 = (if *nowait { 1u8 } else { 0u8 })
                | (if false { 2u8 } else { 0u8 })
                | (if false { 4u8 } else { 0u8 })
                | (if false { 8u8 } else { 0u8 })
                | (if false { 16u8 } else { 0u8 })
                | (if false { 32u8 } else { 0u8 })
                | (if false { 64u8 } else { 0u8 })
                | (if false { 128u8 } else { 0u8 });
            proof {
                assert(fl == bits_byte(*nowait, false, false, false, false, false, false, false));
            }
            w_u8(&mut v, fl);
            proof {
                assert(v@ =~= args_bytes(m@));
            }
            Ok(v)
        },
        Method::ConfirmSelectOk => {
            let mut v: Vec<u8> = Vec::new();
            proof {
                assert(v@ =~= args_bytes(m@));
            }
            Ok(v)
        },
        _ => {
            proof {
                assert(false);
            }
            Err(Error::SerializeError)
        },
    }
}

} // verus!
