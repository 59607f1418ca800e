//! The executable frame decoder, proved equivalent to the specification
//! parser `parse_frame` on the buffer's contents.

use vstd::prelude::*;
use crate::Error;
use crate::wire::{
    be_u16, be_u32, p_take,
    rd_u8, rd_u16, rd_u32, rd_u64, rd_shortstr, rd_longstr, copy_range,
};
use crate::frame::{
    FieldValue, TableEntry, FieldTable, BasicProperties, ContentHeader, Method, Frame,
    table_v, opt_bytes_v, opt_table_v, TableEntryV,
};
use crate::codec::{
    p_fv, p_entry, parse_entries, p_table, p_opt_shortstr, p_opt_u8, p_opt_u64, p_opt_table,
    p_props_hi_a, p_props_hi_b, p_props_lo_a, p_props_lo_b, p_props,
    parse_args, parse_args_connection, parse_args_channel, parse_args_access,
    parse_args_exchange, parse_args_queue, parse_args_basic, parse_args_confirm,
    parse_method_payload, parse_header_payload, parse_frame, protocol_header_bytes,
    FrameParse,
    pm_connection_start, pm_connection_start_a, pm_connection_start_ok, pm_connection_tune,
    pm_connection_tune_ok, pm_connection_open, pm_connection_open_ok, pm_connection_close,
    pm_channel_open, pm_channel_open_ok, pm_channel_flow, pm_channel_flow_ok, pm_channel_close,
    pm_access_request, pm_access_request_ok, pm_exchange_declare, pm_exchange_declare_a,
    pm_exchange_delete, pm_exchange_bind, pm_exchange_bind_a, pm_exchange_unbind,
    pm_queue_declare, pm_queue_declare_ok, pm_queue_bind, pm_queue_bind_a, pm_queue_purge,
    pm_queue_purge_ok, pm_queue_delete, pm_queue_delete_ok, pm_queue_unbind, pm_basic_qos,
    pm_basic_consume, pm_basic_consume_a, pm_basic_consume_ok, pm_basic_publish,
    pm_basic_return, pm_basic_deliver, pm_basic_deliver_a, pm_basic_get, pm_basic_get_ok,
    pm_basic_get_ok_a, pm_basic_get_empty, pm_basic_ack, pm_basic_reject, pm_basic_nack,
    pm_confirm_select,
};

verus! {

// ---------------------------------------------------------------------------
// Field tables
// ---------------------------------------------------------------------------

fn rd_fv(buf: &Vec<u8>, i: usize, end: usize) -> (r: Option<(FieldValue, usize)>)
    requires
        i <= end,
        end <= buf@.len(),
    ensures
        match r {
            Some((v, j)) => {
                &&& i < j <= end
                &&& p_fv(buf@.subrange(i as int, end as int))
                    == Some((v@, buf@.subrange(j as int, end as int)))
            },
            None => p_fv(buf@.subrange(i as int, end as int)) is None,
        },
{
    match rd_u8(buf, i, end) {
        None => None,
        Some((t, j)) => {
            if t == 0x74 {
                match rd_u8(buf, j, end) {
                    None => None,
                    Some((b, j)) => Some((FieldValue::Boolean(b != 0), j)),
                }
            } else if t == 0x49 {
                match rd_u32(buf, j, end) {
                    None => None,
                    Some((n, j)) => Some((FieldValue::LongInt(n as i32), j)),
                }
            } else if t == 0x53 {
                match rd_longstr(buf, j, end) {
                    None => None,
                    Some((s, j)) => Some((FieldValue::LongString(s), j)),
                }
            } else if t == 0x46 {
                match rd_longstr(buf, j, end) {
                    None => None,
                    Some((c, j)) => Some((FieldValue::Table(c), j)),
                }
            } else {
                None
            }
        },
    }
}

fn rd_entry(buf: &Vec<u8>, i: usize, end: usize) -> (r: Option<(TableEntry, usize)>)
    requires
        i <= end,
        end <= buf@.len(),
    ensures
        match r {
            Some((e, j)) => {
                &&& i < j <= end
                &&& p_entry(buf@.subrange(i as int, end as int))
                    == Some((e@, buf@.subrange(j as int, end as int)))
            },
            None => p_entry(buf@.subrange(i as int, end as int)) is None,
        },
{
    match rd_shortstr(buf, i, end) {
        None => None,
        Some((key, j)) => match rd_fv(buf, j, end) {
            None => None,
            Some((value, j)) => Some((TableEntry { key, value }, j)),
        },
    }
}

/// Parse a table's exact content window into its entries.
fn rd_entries(buf: &Vec<u8>, start: usize, end: usize) -> (r: Option<FieldTable>)
    requires
        start <= end,
        end <= buf@.len(),
    ensures
        match r {
            Some(t) => parse_entries(buf@.subrange(start as int, end as int))
                == Some(table_v(t@)),
            None => parse_entries(buf@.subrange(start as int, end as int)) is None,
        },
{
    let mut out: Vec<TableEntry> = Vec::new();
    let mut i: usize = start;
    while i < end
        invariant
            start <= i <= end,
            end <= buf@.len(),
            forall|t2: Seq<TableEntryV>|
                parse_entries(buf@.subrange(i as int, end as int)) == Some(t2)
                    ==> parse_entries(buf@.subrange(start as int, end as int))
                        == Some(table_v(out@) + t2),
            (parse_entries(buf@.subrange(i as int, end as int)) is None)
                ==> (parse_entries(buf@.subrange(start as int, end as int)) is None),
        decreases end - i,
    {
        let wi = Ghost(buf@.subrange(i as int, end as int));
        match rd_entry(buf, i, end) {
            None => {
                proof {
                    assert(wi@.len() > 0);
                    assert(parse_entries(wi@) is None);
                }
                return None;
            },
            Some((e, j)) => {
                proof {
                    let wj = buf@.subrange(j as int, end as int);
                    assert(wj.len() < wi@.len());
                    assert(forall|t2: Seq<TableEntryV>| parse_entries(wj) == Some(t2)
                        ==> parse_entries(wi@) == Some(seq![e@] + t2));
                    assert((parse_entries(wj) is None) ==> (parse_entries(wi@) is None));
                }
                let ghost old_out = out@;
                out.push(e);
                proof {
                    assert(table_v(out@) =~= table_v(old_out) + seq![e@]);
                    assert(forall|t2: Seq<TableEntryV>|
                        (table_v(old_out) + seq![e@]) + t2 =~= table_v(old_out) + (seq![e@] + t2));
                }
                i = j;
            },
        }
    }
    proof {
        assert(buf@.subrange(i as int, end as int).len() == 0);
        assert(parse_entries(buf@.subrange(i as int, end as int))
            == Some(Seq::<TableEntryV>::empty()));
        assert(table_v(out@) + Seq::<TableEntryV>::empty() =~= table_v(out@));
    }
    Some(out)
}

fn rd_table(buf: &Vec<u8>, i: usize, end: usize) -> (r: Option<(FieldTable, usize)>)
    requires
        i <= end,
        end <= buf@.len(),
    ensures
        match r {
            Some((t, j)) => {
                &&& i <= j <= end
                &&& p_table(buf@.subrange(i as int, end as int))
                    == Some((table_v(t@), buf@.subrange(j as int, end as int)))
            },
            None => p_table(buf@.subrange(i as int, end as int)) is None,
        },
{
    match rd_u32(buf, i, end) {
        None => None,
        Some((n, j)) => {
            if n as u64 > (end - j) as u64 {
                proof {
                    assert(p_take(buf@.subrange(j as int, end as int), n as nat) is None);
                }
                None
            } else {
                let cend = j + n as usize;
                proof {
                    let wj = buf@.subrange(j as int, end as int);
                    assert(wj.take(n as int) =~= buf@.subrange(j as int, cend as int));
                    assert(wj.skip(n as int) =~= buf@.subrange(cend as int, end as int));
                }
                match rd_entries(buf, j, cend) {
                    None => None,
                    Some(t) => Some((t, cend)),
                }
            }
        },
    }
}

// ---------------------------------------------------------------------------
// Basic properties
// ---------------------------------------------------------------------------

fn rd_opt_shortstr(cond: bool, buf: &Vec<u8>, i: usize, end: usize) -> (r: Option<
    (Option<Vec<u8>>, usize),
>)
    requires
        i <= end,
        end <= buf@.len(),
    ensures
        match r {
            Some((o, j)) => {
                &&& i <= j <= end
                &&& p_opt_shortstr(cond, buf@.subrange(i as int, end as int))
                    == Some((opt_bytes_v(o), buf@.subrange(j as int, end as int)))
            },
            None => p_opt_shortstr(cond, buf@.subrange(i as int, end as int)) is None,
        },
{
    if cond {
        match rd_shortstr(buf, i, end) {
            None => None,
            Some((s, j)) => Some((Some(s), j)),
        }
    } else {
        Some((None, i))
    }
}

fn rd_opt_u8(cond: bool, buf: &Vec<u8>, i: usize, end: usize) -> (r: Option<(Option<u8>, usize)>)
    requires
        i <= end,
        end <= buf@.len(),
    ensures
        match r {
            Some((o, j)) => {
                &&& i <= j <= end
                &&& p_opt_u8(cond, buf@.subrange(i as int, end as int))
                    == Some((o, buf@.subrange(j as int, end as int)))
            },
            None => p_opt_u8(cond, buf@.subrange(i as int, end as int)) is None,
        },
{
    if cond {
        match rd_u8(buf, i, end) {
            None => None,
            Some((v, j)) => Some((Some(v), j)),
        }
    } else {
        Some((None, i))
    }
}

fn rd_opt_u64(cond: bool, buf: &Vec<u8>, i: usize, end: usize) -> (r: Option<(Option<u64>, usize)>)
    requires
        i <= end,
        end <= buf@.len(),
    ensures
        match r {
            Some((o, j)) => {
                &&& i <= j <= end
                &&& p_opt_u64(cond, buf@.subrange(i as int, end as int))
                    == Some((o, buf@.subrange(j as int, end as int)))
            },
            None => p_opt_u64(cond, buf@.subrange(i as int, end as int)) is None,
        },
{
    if cond {
        match rd_u64(buf, i, end) {
            None => None,
            Some((v, j)) => Some((Some(v), j)),
        }
    } else {
        Some((None, i))
    }
}

fn rd_opt_table(cond: bool, buf: &Vec<u8>, i: usize, end: usize) -> (r: Option<
    (Option<FieldTable>, usize),
>)
    requires
        i <= end,
        end <= buf@.len(),
    ensures
        match r {
            Some((o, j)) => {
                &&& i <= j <= end
                &&& p_opt_table(cond, buf@.subrange(i as int, end as int))
                    == Some((opt_table_v(o), buf@.subrange(j as int, end as int)))
            },
            None => p_opt_table(cond, buf@.subrange(i as int, end as int)) is None,
        },
{
    if cond {
        match rd_table(buf, i, end) {
            None => None,
            Some((t, j)) => Some((Some(t), j)),
        }
    } else {
        Some((None, i))
    }
}

fn rd_props_hi_a(hi: u8, buf: &Vec<u8>, i: usize, end: usize) -> (r: Option<
    ((Option<Vec<u8>>, Option<Vec<u8>>, Option<FieldTable>, Option<u8>), usize),
>)
    requires
        i <= end,
        end <= buf@.len(),
    ensures
        match r {
            Some((vals, j)) => {
                &&& i <= j <= end
                &&& p_props_hi_a(hi, buf@.subrange(i as int, end as int)) == Some((
                    (opt_bytes_v(vals.0), opt_bytes_v(vals.1), opt_table_v(vals.2), vals.3),
                    buf@.subrange(j as int, end as int),
                ))
            },
            None => p_props_hi_a(hi, buf@.subrange(i as int, end as int)) is None,
        },
{
    match rd_opt_shortstr((hi & 128) != 0, buf, i, end) {
        None => None,
        Some((content_type, j)) => match rd_opt_shortstr((hi & 64) != 0, buf, j, end) {
            None => None,
            Some((content_encoding, j)) => match rd_opt_table((hi & 32) != 0, buf, j, end) {
                None => None,
                Some((headers, j)) => match rd_opt_u8((hi & 16) != 0, buf, j, end) {
                    None => None,
                    Some((delivery_mode, j)) => Some((
                        (content_type, content_encoding, headers, delivery_mode),
                        j,
                    )),
                },
            },
        },
    }
}

fn rd_props_hi_b(hi: u8, buf: &Vec<u8>, i: usize, end: usize) -> (r: Option<
    ((Option<u8>, Option<Vec<u8>>, Option<Vec<u8>>, Option<Vec<u8>>), usize),
>)
    requires
        i <= end,
        end <= buf@.len(),
    ensures
        match r {
            Some((vals, j)) => {
                &&& i <= j <= end
                &&& p_props_hi_b(hi, buf@.subrange(i as int, end as int)) == Some((
                    (vals.0, opt_bytes_v(vals.1), opt_bytes_v(vals.2), opt_bytes_v(vals.3)),
                    buf@.subrange(j as int, end as int),
                ))
            },
            None => p_props_hi_b(hi, buf@.subrange(i as int, end as int)) is None,
        },
{
    match rd_opt_u8((hi & 8) != 0, buf, i, end) {
        None => None,
        Some((priority, j)) => match rd_opt_shortstr((hi & 4) != 0, buf, j, end) {
            None => None,
            Some((correlation_id, j)) => match rd_opt_shortstr((hi & 2) != 0, buf, j, end) {
                None => None,
                Some((reply_to, j)) => match rd_opt_shortstr((hi & 1) != 0, buf, j, end) {
                    None => None,
                    Some((expiration, j)) => Some((
                        (priority, correlation_id, reply_to, expiration),
                        j,
                    )),
                },
            },
        },
    }
}

fn rd_props_lo_a(lo: u8, buf: &Vec<u8>, i: usize, end: usize) -> (r: Option<
    ((Option<Vec<u8>>, Option<u64>, Option<Vec<u8>>), usize),
>)
    requires
        i <= end,
        end <= buf@.len(),
    ensures
        match r {
            Some((vals, j)) => {
                &&& i <= j <= end
                &&& p_props_lo_a(lo, buf@.subrange(i as int, end as int)) == Some((
                    (opt_bytes_v(vals.0), vals.1, opt_bytes_v(vals.2)),
                    buf@.subrange(j as int, end as int),
                ))
            },
            None => p_props_lo_a(lo, buf@.subrange(i as int, end as int)) is None,
        },
{
    match rd_opt_shortstr((lo & 128) != 0, buf, i, end) {
        None => None,
        Some((message_id, j)) => match rd_opt_u64((lo & 64) != 0, buf, j, end) {
            None => None,
            Some((timestamp, j)) => match rd_opt_shortstr((lo & 32) != 0, buf, j, end) {
                None => None,
                Some((message_type, j)) => Some(((message_id, timestamp, message_type), j)),
            },
        },
    }
}

fn rd_props_lo_b(lo: u8, buf: &Vec<u8>, i: usize, end: usize) -> (r: Option<
    ((Option<Vec<u8>>, Option<Vec<u8>>, Option<Vec<u8>>), usize),
>)
    requires
        i <= end,
        end <= buf@.len(),
    ensures
        match r {
            Some((vals, j)) => {
                &&& i <= j <= end
                &&& p_props_lo_b(lo, buf@.subrange(i as int, end as int)) == Some((
                    (opt_bytes_v(vals.0), opt_bytes_v(vals.1), opt_bytes_v(vals.2)),
                    buf@.subrange(j as int, end as int),
                ))
            },
            None => p_props_lo_b(lo, buf@.subrange(i as int, end as int)) is None,
        },
{
    match rd_opt_shortstr((lo & 16) != 0, buf, i, end) {
        None => None,
        Some((user_id, j)) => match rd_opt_shortstr((lo & 8) != 0, buf, j, end) {
            None => None,
            Some((app_id, j)) => match rd_opt_shortstr((lo & 4) != 0, buf, j, end) {
                None => None,
                Some((cluster_id, j)) => Some(((user_id, app_id, cluster_id), j)),
            },
        },
    }
}

#[verifier::spinoff_prover]
#[verifier::rlimit(100)]
fn rd_props(buf: &Vec<u8>, i: usize, end: usize) -> (r: Option<(BasicProperties, usize)>)
    requires
        i <= end,
        end <= buf@.len(),
    ensures
        match r {
            Some((p, j)) => {
                &&& i <= j <= end
                &&& p_props(buf@.subrange(i as int, end as int))
                    == Some((p@, buf@.subrange(j as int, end as int)))
            },
            None => p_props(buf@.subrange(i as int, end as int)) is None,
        },
{
    match rd_u8(buf, i, end) {
        None => None,
        Some((hi, j)) => match rd_u8(buf, j, end) {
            None => None,
            Some((lo, j)) => {
                if lo & 3 != 0 {
                    None
                } else {
                    match rd_props_hi_a(hi, buf, j, end) {
                        None => None,
                        Some((ha, j)) => match rd_props_hi_b(hi, buf, j, end) {
                            None => None,
                            Some((hb, j)) => match rd_props_lo_a(lo, buf, j, end) {
                                None => None,
                                Some((la, j)) => match rd_props_lo_b(lo, buf, j, end) {
                                    None => None,
                                    Some((lb, j)) => {
                                        let p = BasicProperties {
                                            content_type: ha.0,
                                            content_encoding: ha.1,
                                            headers: ha.2,
                                            delivery_mode: ha.3,
                                            priority: hb.0,
                                            correlation_id: hb.1,
                                            reply_to: hb.2,
                                            expiration: hb.3,
                                            message_id: la.0,
                                            timestamp: la.1,
                                            message_type: la.2,
                                            user_id: lb.0,
                                            app_id: lb.1,
                                            cluster_id: lb.2,
                                        };
                                        Some((p, j))
                                    },
                                },
                            },
                        },
                    }
                }
            },
        },
    }
}

fn rm_connection_start_a(buf: &Vec<u8>, i: usize, end: usize) -> (r: Option<((u8, u8, FieldTable, Vec<u8>), usize)>)
    requires
        i <= end,
        end <= buf@.len(),
    ensures
        match r {
            Some((vals, j)) => {
                &&& i <= j <= end
                &&& pm_connection_start_a(buf@.subrange(i as int, end as int))
                    == Some(((vals.0, vals.1, table_v(vals.2@), vals.3@), buf@.subrange(j as int, end as int)))
            },
            None => pm_connection_start_a(buf@.subrange(i as int, end as int)) is None,
        },
{
    match rd_u8(buf, i, end) {
        None => None,
        Some((version_major, j)) => {
            match rd_u8(buf, j, end) {
                None => None,
                Some((version_minor, j)) => {
                    match rd_table(buf, j, end) {
                        None => None,
                        Some((server_properties, j)) => {
                            match rd_longstr(buf, j, end) {
                                None => None,
                                Some((mechanisms, j)) => {
                                    Some(((version_major, version_minor, server_properties, mechanisms), j))
                                },
                            }
                        },
                    }
                },
            }
        },
    }
}

fn rm_connection_start(buf: &Vec<u8>, i: usize, end: usize) -> (r: Option<(Method, usize)>)
    requires
        i <= end,
        end <= buf@.len(),
    ensures
        match r {
            Some((m, j)) => {
                &&& i <= j <= end
                &&& pm_connection_start(buf@.subrange(i as int, end as int))
                    == Some((m@, buf@.subrange(j as int, end as int)))
            },
            None => pm_connection_start(buf@.subrange(i as int, end as int)) is None,
        },
{
    match rm_connection_start_a(buf, i, end) {
        None => None,
        Some(((version_major, version_minor, server_properties, mechanisms), j)) => {
            match rd_longstr(buf, j, end) {
                None => None,
                Some((locales, j)) => {
                    let m = Method::ConnectionStart { version_major, version_minor, server_properties, mechanisms, locales };
                    Some((m, j))
                },
            }
        },
    }
}

fn rm_connection_start_ok(buf: &Vec<u8>, i: usize, end: usize) -> (r: Option<(Method, usize)>)
    requires
        i <= end,
        end <= buf@.len(),
    ensures
        match r {
            Some((m, j)) => {
                &&& i <= j <= end
                &&& pm_connection_start_ok(buf@.subrange(i as int, end as int))
                    == Some((m@, buf@.subrange(j as int, end as int)))
            },
            None => pm_connection_start_ok(buf@.subrange(i as int, end as int)) is None,
        },
{
    match rd_table(buf, i, end) {
        None => None,
        Some((client_properties, j)) => {
            match rd_shortstr(buf, j, end) {
                None => None,
                Some((mechanism, j)) => {
                    match rd_longstr(buf, j, end) {
                        None => None,
                        Some((response, j)) => {
                            match rd_shortstr(buf, j, end) {
                                None => None,
                                Some((locale, j)) => {
                                    let m = Method::ConnectionStartOk { client_properties, mechanism, response, locale };
                                    Some((m, j))
                                },
                            }
                        },
                    }
                },
            }
        },
    }
}

fn rm_connection_tune(buf: &Vec<u8>, i: usize, end: usize) -> (r: Option<(Method, usize)>)
    requires
        i <= end,
        end <= buf@.len(),
    ensures
        match r {
            Some((m, j)) => {
                &&& i <= j <= end
                &&& pm_connection_tune(buf@.subrange(i as int, end as int))
                    == Some((m@, buf@.subrange(j as int, end as int)))
            },
            None => pm_connection_tune(buf@.subrange(i as int, end as int)) is None,
        },
{
    match rd_u16(buf, i, end) {
        None => None,
        Some((channel_max, j)) => {
            match rd_u32(buf, j, end) {
                None => None,
                Some((frame_max, j)) => {
                    match rd_u16(buf, j, end) {
                        None => None,
                        Some((heartbeat, j)) => {
                            let m = Method::ConnectionTune { channel_max, frame_max, heartbeat };
                            Some((m, j))
                        },
                    }
                },
            }
        },
    }
}

fn rm_connection_tune_ok(buf: &Vec<u8>, i: usize, end: usize) -> (r: Option<(Method, usize)>)
    requires
        i <= end,
        end <= buf@.len(),
    ensures
        match r {
            Some((m, j)) => {
                &&& i <= j <= end
                &&& pm_connection_tune_ok(buf@.subrange(i as int, end as int))
                    == Some((m@, buf@.subrange(j as int, end as int)))
            },
            None => pm_connection_tune_ok(buf@.subrange(i as int, end as int)) is None,
        },
{
    match rd_u16(buf, i, end) {
        None => None,
        Some((channel_max, j)) => {
            match rd_u32(buf, j, end) {
                None => None,
                Some((frame_max, j)) => {
                    match rd_u16(buf, j, end) {
                        None => None,
                        Some((heartbeat, j)) => {
                            let m = Method::ConnectionTuneOk { channel_max, frame_max, heartbeat };
                            Some((m, j))
                        },
                    }
                },
            }
        },
    }
}

fn rm_connection_open(buf: &Vec<u8>, i: usize, end: usize) -> (r: Option<(Method, usize)>)
    requires
        i <= end,
        end <= buf@.len(),
    ensures
        match r {
            Some((m, j)) => {
                &&& i <= j <= end
                &&& pm_connection_open(buf@.subrange(i as int, end as int))
                    == Some((m@, buf@.subrange(j as int, end as int)))
            },
            None => pm_connection_open(buf@.subrange(i as int, end as int)) is None,
        },
{
    match rd_shortstr(buf, i, end) {
        None => None,
        Some((virtual_host, j)) => {
            match rd_shortstr(buf, j, end) {
                None => None,
                Some((capabilities, j)) => {
                    match rd_u8(buf, j, end) {
                        None => None,
                        Some((fl, j)) => {
                            if fl & 0xFE != 0 {
                                return None;
                            }
                            let m = Method::ConnectionOpen { virtual_host, capabilities, insist: (fl & 1) != 0 };
                            Some((m, j))
                        },
                    }
                },
            }
        },
    }
}

fn rm_connection_open_ok(buf: &Vec<u8>, i: usize, end: usize) -> (r: Option<(Method, usize)>)
    requires
        i <= end,
        end <= buf@.len(),
    ensures
        match r {
            Some((m, j)) => {
                &&& i <= j <= end
                &&& pm_connection_open_ok(buf@.subrange(i as int, end as int))
                    == Some((m@, buf@.subrange(j as int, end as int)))
            },
            None => pm_connection_open_ok(buf@.subrange(i as int, end as int)) is None,
        },
{
    match rd_shortstr(buf, i, end) {
        None => None,
        Some((known_hosts, j)) => {
            let m = Method::ConnectionOpenOk { known_hosts };
            Some((m, j))
        },
    }
}

fn rm_connection_close(buf: &Vec<u8>, i: usize, end: usize) -> (r: Option<(Method, usize)>)
    requires
        i <= end,
        end <= buf@.len(),
    ensures
        match r {
            Some((m, j)) => {
                &&& i <= j <= end
                &&& pm_connection_close(buf@.subrange(i as int, end as int))
                    == Some((m@, buf@.subrange(j as int, end as int)))
            },
            None => pm_connection_close(buf@.subrange(i as int, end as int)) is None,
        },
{
    match rd_u16(buf, i, end) {
        None => None,
        Some((reply_code, j)) => {
            match rd_shortstr(buf, j, end) {
                None => None,
                Some((reply_text, j)) => {
                    match rd_u16(buf, j, end) {
                        None => None,
                        Some((class_id, j)) => {
                            match rd_u16(buf, j, end) {
                                None => None,
                                Some((method_id, j)) => {
                                    let m = Method::ConnectionClose { reply_code, reply_text, class_id, method_id };
                                    Some((m, j))
                                },
                            }
                        },
                    }
                },
            }
        },
    }
}

fn rm_channel_open(buf: &Vec<u8>, i: usize, end: usize) -> (r: Option<(Method, usize)>)
    requires
        i <= end,
        end <= buf@.len(),
    ensures
        match r {
            Some((m, j)) => {
                &&& i <= j <= end
                &&& pm_channel_open(buf@.subrange(i as int, end as int))
                    == Some((m@, buf@.subrange(j as int, end as int)))
            },
            None => pm_channel_open(buf@.subrange(i as int, end as int)) is None,
        },
{
    match rd_shortstr(buf, i, end) {
        None => None,
        Some((out_of_band, j)) => {
            let m = Method::ChannelOpen { out_of_band };
            Some((m, j))
        },
    }
}

fn rm_channel_open_ok(buf: &Vec<u8>, i: usize, end: usize) -> (r: Option<(Method, usize)>)
    requires
        i <= end,
        end <= buf@.len(),
    ensures
        match r {
            Some((m, j)) => {
                &&& i <= j <= end
                &&& pm_channel_open_ok(buf@.subrange(i as int, end as int))
                    == Some((m@, buf@.subrange(j as int, end as int)))
            },
            None => pm_channel_open_ok(buf@.subrange(i as int, end as int)) is None,
        },
{
    match rd_longstr(buf, i, end) {
        None => None,
        Some((channel_id, j)) => {
            let m = Method::ChannelOpenOk { channel_id };
            Some((m, j))
        },
    }
}

fn rm_channel_flow(buf: &Vec<u8>, i: usize, end: usize) -> (r: Option<(Method, usize)>)
    requires
        i <= end,
        end <= buf@.len(),
    ensures
        match r {
            Some((m, j)) => {
                &&& i <= j <= end
                &&& pm_channel_flow(buf@.subrange(i as int, end as int))
                    == Some((m@, buf@.subrange(j as int, end as int)))
            },
            None => pm_channel_flow(buf@.subrange(i as int, end as int)) is None,
        },
{
    match rd_u8(buf, i, end) {
        None => None,
        Some((fl, j)) => {
            if fl & 0xFE != 0 {
                return None;
            }
            let m = Method::ChannelFlow { active: (fl & 1) != 0 };
            Some((m, j))
        },
    }
}

fn rm_channel_flow_ok(buf: &Vec<u8>, i: usize, end: usize) -> (r: Option<(Method, usize)>)
    requires
        i <= end,
        end <= buf@.len(),
    ensures
        match r {
            Some((m, j)) => {
                &&& i <= j <= end
                &&& pm_channel_flow_ok(buf@.subrange(i as int, end as int))
                    == Some((m@, buf@.subrange(j as int, end as int)))
            },
            None => pm_channel_flow_ok(buf@.subrange(i as int, end as int)) is None,
        },
{
    match rd_u8(buf, i, end) {
        None => None,
        Some((fl, j)) => {
            if fl & 0xFE != 0 {
                return None;
            }
            let m = Method::ChannelFlowOk { active: (fl & 1) != 0 };
            Some((m, j))
        },
    }
}

fn rm_channel_close(buf: &Vec<u8>, i: usize, end: usize) -> (r: Option<(Method, usize)>)
    requires
        i <= end,
        end <= buf@.len(),
    ensures
        match r {
            Some((m, j)) => {
                &&& i <= j <= end
                &&& pm_channel_close(buf@.subrange(i as int, end as int))
                    == Some((m@, buf@.subrange(j as int, end as int)))
            },
            None => pm_channel_close(buf@.subrange(i as int, end as int)) is None,
        },
{
    match rd_u16(buf, i, end) {
        None => None,
        Some((reply_code, j)) => {
            match rd_shortstr(buf, j, end) {
                None => None,
                Some((reply_text, j)) => {
                    match rd_u16(buf, j, end) {
                        None => None,
                        Some((class_id, j)) => {
                            match rd_u16(buf, j, end) {
                                None => None,
                                Some((method_id, j)) => {
                                    let m = Method::ChannelClose { reply_code, reply_text, class_id, method_id };
                                    Some((m, j))
                                },
                            }
                        },
                    }
                },
            }
        },
    }
}

fn rm_access_request(buf: &Vec<u8>, i: usize, end: usize) -> (r: Option<(Method, usize)>)
    requires
        i <= end,
        end <= buf@.len(),
    ensures
        match r {
            Some((m, j)) => {
                &&& i <= j <= end
                &&& pm_access_request(buf@.subrange(i as int, end as int))
                    == Some((m@, buf@.subrange(j as int, end as int)))
            },
            None => pm_access_request(buf@.subrange(i as int, end as int)) is None,
        },
{
    match rd_shortstr(buf, i, end) {
        None => None,
        Some((realm, j)) => {
            match rd_u8(buf, j, end) {
                None => None,
                Some((fl, j)) => {
                    if fl & 0xE0 != 0 {
                        return None;
                    }
                    let m = Method::AccessRequest { realm, exclusive: (fl & 1) != 0, passive: (fl & 2) != 0, active: (fl & 4) != 0, write: (fl & 8) != 0, read: (fl & 16) != 0 };
                    Some((m, j))
                },
            }
        },
    }
}

fn rm_access_request_ok(buf: &Vec<u8>, i: usize, end: usize) -> (r: Option<(Method, usize)>)
    requires
        i <= end,
        end <= buf@.len(),
    ensures
        match r {
            Some((m, j)) => {
                &&& i <= j <= end
                &&& pm_access_request_ok(buf@.subrange(i as int, end as int))
                    == Some((m@, buf@.subrange(j as int, end as int)))
            },
            None => pm_access_request_ok(buf@.subrange(i as int, end as int)) is None,
        },
{
    match rd_u16(buf, i, end) {
        None => None,
        Some((ticket, j)) => {
            let m = Method::AccessRequestOk { ticket };
            Some((m, j))
        },
    }
}

fn rm_exchange_declare_a(buf: &Vec<u8>, i: usize, end: usize) -> (r: Option<((u16, Vec<u8>, Vec<u8>, u8), usize)>)
    requires
        i <= end,
        end <= buf@.len(),
    ensures
        match r {
            Some((vals, j)) => {
                &&& i <= j <= end
                &&& pm_exchange_declare_a(buf@.subrange(i as int, end as int))
                    == Some(((vals.0, vals.1@, vals.2@, vals.3), buf@.subrange(j as int, end as int)))
            },
            None => pm_exchange_declare_a(buf@.subrange(i as int, end as int)) is None,
        },
{
    match rd_u16(buf, i, end) {
        None => None,
        Some((ticket, j)) => {
            match rd_shortstr(buf, j, end) {
                None => None,
                Some((exchange, j)) => {
                    match rd_shortstr(buf, j, end) {
                        None => None,
                        Some((exchange_type, j)) => {
                            match rd_u8(buf, j, end) {
                                None => None,
                                Some((fl, j)) => {
                                    Some(((ticket, exchange, exchange_type, fl), j))
                                },
                            }
                        },
                    }
                },
            }
        },
    }
}

fn rm_exchange_declare(buf: &Vec<u8>, i: usize, end: usize) -> (r: Option<(Method, usize)>)
    requires
        i <= end,
        end <= buf@.len(),
    ensures
        match r {
            Some((m, j)) => {
                &&& i <= j <= end
                &&& pm_exchange_declare(buf@.subrange(i as int, end as int))
                    == Some((m@, buf@.subrange(j as int, end as int)))
            },
            None => pm_exchange_declare(buf@.subrange(i as int, end as int)) is None,
        },
{
    match rm_exchange_declare_a(buf, i, end) {
        None => None,
        Some(((ticket, exchange, exchange_type, fl), j)) => {
            if fl & 0xE0 != 0 {
                return None;
            }
            match rd_table(buf, j, end) {
                None => None,
                Some((arguments, j)) => {
                    let m = Method::ExchangeDeclare { ticket, exchange, exchange_type, passive: (fl & 1) != 0, durable: (fl & 2) != 0, auto_delete: (fl & 4) != 0, internal: (fl & 8) != 0, nowait: (fl & 16) != 0, arguments };
                    Some((m, j))
                },
            }
        },
    }
}

fn rm_exchange_delete(buf: &Vec<u8>, i: usize, end: usize) -> (r: Option<(Method, usize)>)
    requires
        i <= end,
        end <= buf@.len(),
    ensures
        match r {
            Some((m, j)) => {
                &&& i <= j <= end
                &&& pm_exchange_delete(buf@.subrange(i as int, end as int))
                    == Some((m@, buf@.subrange(j as int, end as int)))
            },
            None => pm_exchange_delete(buf@.subrange(i as int, end as int)) is None,
        },
{
    match rd_u16(buf, i, end) {
        None => None,
        Some((ticket, j)) => {
            match rd_shortstr(buf, j, end) {
                None => None,
                Some((exchange, j)) => {
                    match rd_u8(buf, j, end) {
                        None => None,
                        Some((fl, j)) => {
                            if fl & 0xFC != 0 {
                                return None;
                            }
                            let m = Method::ExchangeDelete { ticket, exchange, if_unused: (fl & 1) != 0, nowait: (fl & 2) != 0 };
                            Some((m, j))
                        },
                    }
                },
            }
        },
    }
}

fn rm_exchange_bind_a(buf: &Vec<u8>, i: usize, end: usize) -> (r: Option<((u16, Vec<u8>, Vec<u8>, Vec<u8>), usize)>)
    requires
        i <= end,
        end <= buf@.len(),
    ensures
        match r {
            Some((vals, j)) => {
                &&& i <= j <= end
                &&& pm_exchange_bind_a(buf@.subrange(i as int, end as int))
                    == Some(((vals.0, vals.1@, vals.2@, vals.3@), buf@.subrange(j as int, end as int)))
            },
            None => pm_exchange_bind_a(buf@.subrange(i as int, end as int)) is None,
        },
{
    match rd_u16(buf, i, end) {
        None => None,
        Some((ticket, j)) => {
            match rd_shortstr(buf, j, end) {
                None => None,
                Some((destination, j)) => {
                    match rd_shortstr(buf, j, end) {
                        None => None,
                        Some((source, j)) => {
                            match rd_shortstr(buf, j, end) {
                                None => None,
                                Some((routing_key, j)) => {
                                    Some(((ticket, destination, source, routing_key), j))
                                },
                            }
                        },
                    }
                },
            }
        },
    }
}

fn rm_exchange_bind(buf: &Vec<u8>, i: usize, end: usize) -> (r: Option<(Method, usize)>)
    requires
        i <= end,
        end <= buf@.len(),
    ensures
        match r {
            Some((m, j)) => {
                &&& i <= j <= end
                &&& pm_exchange_bind(buf@.subrange(i as int, end as int))
                    == Some((m@, buf@.subrange(j as int, end as int)))
            },
            None => pm_exchange_bind(buf@.subrange(i as int, end as int)) is None,
        },
{
    match rm_exchange_bind_a(buf, i, end) {
        None => None,
        Some(((ticket, destination, source, routing_key), j)) => {
            match rd_u8(buf, j, end) {
                None => None,
                Some((fl, j)) => {
                    if fl & 0xFE != 0 {
                        return None;
                    }
                    match rd_table(buf, j, end) {
                        None => None,
                        Some((arguments, j)) => {
                            let m = Method::ExchangeBind { ticket, destination, source, routing_key, nowait: (fl & 1) != 0, arguments };
                            Some((m, j))
                        },
                    }
                },
            }
        },
    }
}

fn rm_exchange_unbind(buf: &Vec<u8>, i: usize, end: usize) -> (r: Option<(Method, usize)>)
    requires
        i <= end,
        end <= buf@.len(),
    ensures
        match r {
            Some((m, j)) => {
                &&& i <= j <= end
                &&& pm_exchange_unbind(buf@.subrange(i as int, end as int))
                    == Some((m@, buf@.subrange(j as int, end as int)))
            },
            None => pm_exchange_unbind(buf@.subrange(i as int, end as int)) is None,
        },
{
    match rm_exchange_bind_a(buf, i, end) {
        None => None,
        Some(((ticket, destination, source, routing_key), j)) => {
            match rd_u8(buf, j, end) {
                None => None,
                Some((fl, j)) => {
                    if fl & 0xFE != 0 {
                        return None;
                    }
                    match rd_table(buf, j, end) {
                        None => None,
                        Some((arguments, j)) => {
                            let m = Method::ExchangeUnbind { ticket, destination, source, routing_key, nowait: (fl & 1) != 0, arguments };
                            Some((m, j))
                        },
                    }
                },
            }
        },
    }
}

fn rm_queue_declare(buf: &Vec<u8>, i: usize, end: usize) -> (r: Option<(Method, usize)>)
    requires
        i <= end,
        end <= buf@.len(),
    ensures
        match r {
            Some((m, j)) => {
                &&& i <= j <= end
                &&& pm_queue_declare(buf@.subrange(i as int, end as int))
                    == Some((m@, buf@.subrange(j as int, end as int)))
            },
            None => pm_queue_declare(buf@.subrange(i as int, end as int)) is None,
        },
{
    match rd_u16(buf, i, end) {
        None => None,
        Some((ticket, j)) => {
            match rd_shortstr(buf, j, end) {
                None => None,
                Some((queue, j)) => {
                    match rd_u8(buf, j, end) {
                        None => None,
                        Some((fl, j)) => {
                            if fl & 0xE0 != 0 {
                                return None;
                            }
                            match rd_table(buf, j, end) {
                                None => None,
                                Some((arguments, j)) => {
                                    let m = Method::QueueDeclare { ticket, queue, passive: (fl & 1) != 0, durable: (fl & 2) != 0, exclusive: (fl & 4) != 0, auto_delete: (fl & 8) != 0, nowait: (fl & 16) != 0, arguments };
                                    Some((m, j))
                                },
                            }
                        },
                    }
                },
            }
        },
    }
}

fn rm_queue_declare_ok(buf: &Vec<u8>, i: usize, end: usize) -> (r: Option<(Method, usize)>)
    requires
        i <= end,
        end <= buf@.len(),
    ensures
        match r {
            Some((m, j)) => {
                &&& i <= j <= end
                &&& pm_queue_declare_ok(buf@.subrange(i as int, end as int))
                    == Some((m@, buf@.subrange(j as int, end as int)))
            },
            None => pm_queue_declare_ok(buf@.subrange(i as int, end as int)) is None,
        },
{
    match rd_shortstr(buf, i, end) {
        None => None,
        Some((queue, j)) => {
            match rd_u32(buf, j, end) {
                None => None,
                Some((message_count, j)) => {
                    match rd_u32(buf, j, end) {
                        None => None,
                        Some((consumer_count, j)) => {
                            let m = Method::QueueDeclareOk { queue, message_count, consumer_count };
                            Some((m, j))
                        },
                    }
                },
            }
        },
    }
}

fn rm_queue_bind_a(buf: &Vec<u8>, i: usize, end: usize) -> (r: Option<((u16, Vec<u8>, Vec<u8>, Vec<u8>), usize)>)
    requires
        i <= end,
        end <= buf@.len(),
    ensures
        match r {
            Some((vals, j)) => {
                &&& i <= j <= end
                &&& pm_queue_bind_a(buf@.subrange(i as int, end as int))
                    == Some(((vals.0, vals.1@, vals.2@, vals.3@), buf@.subrange(j as int, end as int)))
            },
            None => pm_queue_bind_a(buf@.subrange(i as int, end as int)) is None,
        },
{
    match rd_u16(buf, i, end) {
        None => None,
        Some((ticket, j)) => {
            match rd_shortstr(buf, j, end) {
                None => None,
                Some((queue, j)) => {
                    match rd_shortstr(buf, j, end) {
                        None => None,
                        Some((exchange, j)) => {
                            match rd_shortstr(buf, j, end) {
                                None => None,
                                Some((routing_key, j)) => {
                                    Some(((ticket, queue, exchange, routing_key), j))
                                },
                            }
                        },
                    }
                },
            }
        },
    }
}

fn rm_queue_bind(buf: &Vec<u8>, i: usize, end: usize) -> (r: Option<(Method, usize)>)
    requires
        i <= end,
        end <= buf@.len(),
    ensures
        match r {
            Some((m, j)) => {
                &&& i <= j <= end
                &&& pm_queue_bind(buf@.subrange(i as int, end as int))
                    == Some((m@, buf@.subrange(j as int, end as int)))
            },
            None => pm_queue_bind(buf@.subrange(i as int, end as int)) is None,
        },
{
    match rm_queue_bind_a(buf, i, end) {
        None => None,
        Some(((ticket, queue, exchange, routing_key), j)) => {
            match rd_u8(buf, j, end) {
                None => None,
                Some((fl, j)) => {
                    if fl & 0xFE != 0 {
                        return None;
                    }
                    match rd_table(buf, j, end) {
                        None => None,
                        Some((arguments, j)) => {
                            let m = Method::QueueBind { ticket, queue, exchange, routing_key, nowait: (fl & 1) != 0, arguments };
                            Some((m, j))
                        },
                    }
                },
            }
        },
    }
}

fn rm_queue_purge(buf: &Vec<u8>, i: usize, end: usize) -> (r: Option<(Method, usize)>)
    requires
        i <= end,
        end <= buf@.len(),
    ensures
        match r {
            Some((m, j)) => {
                &&& i <= j <= end
                &&& pm_queue_purge(buf@.subrange(i as int, end as int))
                    == Some((m@, buf@.subrange(j as int, end as int)))
            },
            None => pm_queue_purge(buf@.subrange(i as int, end as int)) is None,
        },
{
    match rd_u16(buf, i, end) {
        None => None,
        Some((ticket, j)) => {
            match rd_shortstr(buf, j, end) {
                None => None,
                Some((queue, j)) => {
                    match rd_u8(buf, j, end) {
                        None => None,
                        Some((fl, j)) => {
                            if fl & 0xFE != 0 {
                                return None;
                            }
                            let m = Method::QueuePurge { ticket, queue, nowait: (fl & 1) != 0 };
                            Some((m, j))
                        },
                    }
                },
            }
        },
    }
}

fn rm_queue_purge_ok(buf: &Vec<u8>, i: usize, end: usize) -> (r: Option<(Method, usize)>)
    requires
        i <= end,
        end <= buf@.len(),
    ensures
        match r {
            Some((m, j)) => {
                &&& i <= j <= end
                &&& pm_queue_purge_ok(buf@.subrange(i as int, end as int))
                    == Some((m@, buf@.subrange(j as int, end as int)))
            },
            None => pm_queue_purge_ok(buf@.subrange(i as int, end as int)) is None,
        },
{
    match rd_u32(buf, i, end) {
        None => None,
        Some((message_count, j)) => {
            let m = Method::QueuePurgeOk { message_count };
            Some((m, j))
        },
    }
}

fn rm_queue_delete(buf: &Vec<u8>, i: usize, end: usize) -> (r: Option<(Method, usize)>)
    requires
        i <= end,
        end <= buf@.len(),
    ensures
        match r {
            Some((m, j)) => {
                &&& i <= j <= end
                &&& pm_queue_delete(buf@.subrange(i as int, end as int))
                    == Some((m@, buf@.subrange(j as int, end as int)))
            },
            None => pm_queue_delete(buf@.subrange(i as int, end as int)) is None,
        },
{
    match rd_u16(buf, i, end) {
        None => None,
        Some((ticket, j)) => {
            match rd_shortstr(buf, j, end) {
                None => None,
                Some((queue, j)) => {
                    match rd_u8(buf, j, end) {
                        None => None,
                        Some((fl, j)) => {
                            if fl & 0xF8 != 0 {
                                return None;
                            }
                            let m = Method::QueueDelete { ticket, queue, if_unused: (fl & 1) != 0, if_empty: (fl & 2) != 0, nowait: (fl & 4) != 0 };
                            Some((m, j))
                        },
                    }
                },
            }
        },
    }
}

fn rm_queue_delete_ok(buf: &Vec<u8>, i: usize, end: usize) -> (r: Option<(Method, usize)>)
    requires
        i <= end,
        end <= buf@.len(),
    ensures
        match r {
            Some((m, j)) => {
                &&& i <= j <= end
                &&& pm_queue_delete_ok(buf@.subrange(i as int, end as int))
                    == Some((m@, buf@.subrange(j as int, end as int)))
            },
            None => pm_queue_delete_ok(buf@.subrange(i as int, end as int)) is None,
        },
{
    match rd_u32(buf, i, end) {
        None => None,
        Some((message_count, j)) => {
            let m = Method::QueueDeleteOk { message_count };
            Some((m, j))
        },
    }
}

fn rm_queue_unbind(buf: &Vec<u8>, i: usize, end: usize) -> (r: Option<(Method, usize)>)
    requires
        i <= end,
        end <= buf@.len(),
    ensures
        match r {
            Some((m, j)) => {
                &&& i <= j <= end
                &&& pm_queue_unbind(buf@.subrange(i as int, end as int))
                    == Some((m@, buf@.subrange(j as int, end as int)))
            },
            None => pm_queue_unbind(buf@.subrange(i as int, end as int)) is None,
        },
{
    match rm_queue_bind_a(buf, i, end) {
        None => None,
        Some(((ticket, queue, exchange, routing_key), j)) => {
            match rd_table(buf, j, end) {
                None => None,
                Some((arguments, j)) => {
                    let m = Method::QueueUnbind { ticket, queue, exchange, routing_key, arguments };
                    Some((m, j))
                },
            }
        },
    }
}

fn rm_basic_qos(buf: &Vec<u8>, i: usize, end: usize) -> (r: Option<(Method, usize)>)
    requires
        i <= end,
        end <= buf@.len(),
    ensures
        match r {
            Some((m, j)) => {
                &&& i <= j <= end
                &&& pm_basic_qos(buf@.subrange(i as int, end as int))
                    == Some((m@, buf@.subrange(j as int, end as int)))
            },
            None => pm_basic_qos(buf@.subrange(i as int, end as int)) is None,
        },
{
    match rd_u32(buf, i, end) {
        None => None,
        Some((prefetch_size, j)) => {
            match rd_u16(buf, j, end) {
                None => None,
                Some((prefetch_count, j)) => {
                    match rd_u8(buf, j, end) {
                        None => None,
                        Some((fl, j)) => {
                            if fl & 0xFE != 0 {
                                return None;
                            }
                            let m = Method::BasicQos { prefetch_size, prefetch_count, global: (fl & 1) != 0 };
                            Some((m, j))
                        },
                    }
                },
            }
        },
    }
}

fn rm_basic_consume_a(buf: &Vec<u8>, i: usize, end: usize) -> (r: Option<((u16, Vec<u8>, Vec<u8>, u8), usize)>)
    requires
        i <= end,
        end <= buf@.len(),
    ensures
        match r {
            Some((vals, j)) => {
                &&& i <= j <= end
                &&& pm_basic_consume_a(buf@.subrange(i as int, end as int))
                    == Some(((vals.0, vals.1@, vals.2@, vals.3), buf@.subrange(j as int, end as int)))
            },
            None => pm_basic_consume_a(buf@.subrange(i as int, end as int)) is None,
        },
{
    match rd_u16(buf, i, end) {
        None => None,
        Some((ticket, j)) => {
            match rd_shortstr(buf, j, end) {
                None => None,
                Some((queue, j)) => {
                    match rd_shortstr(buf, j, end) {
                        None => None,
                        Some((consumer_tag, j)) => {
                            match rd_u8(buf, j, end) {
                                None => None,
                                Some((fl, j)) => {
                                    Some(((ticket, queue, consumer_tag, fl), j))
                                },
                            }
                        },
                    }
                },
            }
        },
    }
}

fn rm_basic_consume(buf: &Vec<u8>, i: usize, end: usize) -> (r: Option<(Method, usize)>)
    requires
        i <= end,
        end <= buf@.len(),
    ensures
        match r {
            Some((m, j)) => {
                &&& i <= j <= end
                &&& pm_basic_consume(buf@.subrange(i as int, end as int))
                    == Some((m@, buf@.subrange(j as int, end as int)))
            },
            None => pm_basic_consume(buf@.subrange(i as int, end as int)) is None,
        },
{
    match rm_basic_consume_a(buf, i, end) {
        None => None,
        Some(((ticket, queue, consumer_tag, fl), j)) => {
            if fl & 0xF0 != 0 {
                return None;
            }
            match rd_table(buf, j, end) {
                None => None,
                Some((arguments, j)) => {
                    let m = Method::BasicConsume { ticket, queue, consumer_tag, no_local: (fl & 1) != 0, no_ack: (fl & 2) != 0, exclusive: (fl & 4) != 0, nowait: (fl & 8) != 0, arguments };
                    Some((m, j))
                },
            }
        },
    }
}

fn rm_basic_consume_ok(buf: &Vec<u8>, i: usize, end: usize) -> (r: Option<(Method, usize)>)
    requires
        i <= end,
        end <= buf@.len(),
    ensures
        match r {
            Some((m, j)) => {
                &&& i <= j <= end
                &&& pm_basic_consume_ok(buf@.subrange(i as int, end as int))
                    == Some((m@, buf@.subrange(j as int, end as int)))
            },
            None => pm_basic_consume_ok(buf@.subrange(i as int, end as int)) is None,
        },
{
    match rd_shortstr(buf, i, end) {
        None => None,
        Some((consumer_tag, j)) => {
            let m = Method::BasicConsumeOk { consumer_tag };
            Some((m, j))
        },
    }
}

fn rm_basic_publish(buf: &Vec<u8>, i: usize, end: usize) -> (r: Option<(Method, usize)>)
    requires
        i <= end,
        end <= buf@.len(),
    ensures
        match r {
            Some((m, j)) => {
                &&& i <= j <= end
                &&& pm_basic_publish(buf@.subrange(i as int, end as int))
                    == Some((m@, buf@.subrange(j as int, end as int)))
            },
            None => pm_basic_publish(buf@.subrange(i as int, end as int)) is None,
        },
{
    match rd_u16(buf, i, end) {
        None => None,
        Some((ticket, j)) => {
            match rd_shortstr(buf, j, end) {
                None => None,
                Some((exchange, j)) => {
                    match rd_shortstr(buf, j, end) {
                        None => None,
                        Some((routing_key, j)) => {
                            match rd_u8(buf, j, end) {
                                None => None,
                                Some((fl, j)) => {
                                    if fl & 0xFC != 0 {
                                        return None;
                                    }
                                    let m = Method::BasicPublish { ticket, exchange, routing_key, mandatory: (fl & 1) != 0, immediate: (fl & 2) != 0 };
                                    Some((m, j))
                                },
                            }
                        },
                    }
                },
            }
        },
    }
}

fn rm_basic_return(buf: &Vec<u8>, i: usize, end: usize) -> (r: Option<(Method, usize)>)
    requires
        i <= end,
        end <= buf@.len(),
    ensures
        match r {
            Some((m, j)) => {
                &&& i <= j <= end
                &&& pm_basic_return(buf@.subrange(i as int, end as int))
                    == Some((m@, buf@.subrange(j as int, end as int)))
            },
            None => pm_basic_return(buf@.subrange(i as int, end as int)) is None,
        },
{
    match rd_u16(buf, i, end) {
        None => None,
        Some((reply_code, j)) => {
            match rd_shortstr(buf, j, end) {
                None => None,
                Some((reply_text, j)) => {
                    match rd_shortstr(buf, j, end) {
                        None => None,
                        Some((exchange, j)) => {
                            match rd_shortstr(buf, j, end) {
                                None => None,
                                Some((routing_key, j)) => {
                                    let m = Method::BasicReturn { reply_code, reply_text, exchange, routing_key };
                                    Some((m, j))
                                },
                            }
                        },
                    }
                },
            }
        },
    }
}

fn rm_basic_deliver_a(buf: &Vec<u8>, i: usize, end: usize) -> (r: Option<((Vec<u8>, u64, u8, Vec<u8>), usize)>)
    requires
        i <= end,
        end <= buf@.len(),
    ensures
        match r {
            Some((vals, j)) => {
                &&& i <= j <= end
                &&& pm_basic_deliver_a(buf@.subrange(i as int, end as int))
                    == Some(((vals.0@, vals.1, vals.2, vals.3@), buf@.subrange(j as int, end as int)))
            },
            None => pm_basic_deliver_a(buf@.subrange(i as int, end as int)) is None,
        },
{
    match rd_shortstr(buf, i, end) {
        None => None,
        Some((consumer_tag, j)) => {
            match rd_u64(buf, j, end) {
                None => None,
                Some((delivery_tag, j)) => {
                    match rd_u8(buf, j, end) {
                        None => None,
                        Some((fl, j)) => {
                            match rd_shortstr(buf, j, end) {
                                None => None,
                                Some((exchange, j)) => {
                                    Some(((consumer_tag, delivery_tag, fl, exchange), j))
                                },
                            }
                        },
                    }
                },
            }
        },
    }
}

fn rm_basic_deliver(buf: &Vec<u8>, i: usize, end: usize) -> (r: Option<(Method, usize)>)
    requires
        i <= end,
        end <= buf@.len(),
    ensures
        match r {
            Some((m, j)) => {
                &&& i <= j <= end
                &&& pm_basic_deliver(buf@.subrange(i as int, end as int))
                    == Some((m@, buf@.subrange(j as int, end as int)))
            },
            None => pm_basic_deliver(buf@.subrange(i as int, end as int)) is None,
        },
{
    match rm_basic_deliver_a(buf, i, end) {
        None => None,
        Some(((consumer_tag, delivery_tag, fl, exchange), j)) => {
            if fl & 0xFE != 0 {
                return None;
            }
            match rd_shortstr(buf, j, end) {
                None => None,
                Some((routing_key, j)) => {
                    let m = Method::BasicDeliver { consumer_tag, delivery_tag, redelivered: (fl & 1) != 0, exchange, routing_key };
                    Some((m, j))
                },
            }
        },
    }
}

fn rm_basic_get(buf: &Vec<u8>, i: usize, end: usize) -> (r: Option<(Method, usize)>)
    requires
        i <= end,
        end <= buf@.len(),
    ensures
        match r {
            Some((m, j)) => {
                &&& i <= j <= end
                &&& pm_basic_get(buf@.subrange(i as int, end as int))
                    == Some((m@, buf@.subrange(j as int, end as int)))
            },
            None => pm_basic_get(buf@.subrange(i as int, end as int)) is None,
        },
{
    match rd_u16(buf, i, end) {
        None => None,
        Some((ticket, j)) => {
            match rd_shortstr(buf, j, end) {
                None => None,
                Some((queue, j)) => {
                    match rd_u8(buf, j, end) {
                        None => None,
                        Some((fl, j)) => {
                            if fl & 0xFE != 0 {
                                return None;
                            }
                            let m = Method::BasicGet { ticket, queue, no_ack: (fl & 1) != 0 };
                            Some((m, j))
                        },
                    }
                },
            }
        },
    }
}

fn rm_basic_get_ok_a(buf: &Vec<u8>, i: usize, end: usize) -> (r: Option<((u64, u8, Vec<u8>, Vec<u8>), usize)>)
    requires
        i <= end,
        end <= buf@.len(),
    ensures
        match r {
            Some((vals, j)) => {
                &&& i <= j <= end
                &&& pm_basic_get_ok_a(buf@.subrange(i as int, end as int))
                    == Some(((vals.0, vals.1, vals.2@, vals.3@), buf@.subrange(j as int, end as int)))
            },
            None => pm_basic_get_ok_a(buf@.subrange(i as int, end as int)) is None,
        },
{
    match rd_u64(buf, i, end) {
        None => None,
        Some((delivery_tag, j)) => {
            match rd_u8(buf, j, end) {
                None => None,
                Some((fl, j)) => {
                    match rd_shortstr(buf, j, end) {
                        None => None,
                        Some((exchange, j)) => {
                            match rd_shortstr(buf, j, end) {
                                None => None,
                                Some((routing_key, j)) => {
                                    Some(((delivery_tag, fl, exchange, routing_key), j))
                                },
                            }
                        },
                    }
                },
            }
        },
    }
}

fn rm_basic_get_ok(buf: &Vec<u8>, i: usize, end: usize) -> (r: Option<(Method, usize)>)
    requires
        i <= end,
        end <= buf@.len(),
    ensures
        match r {
            Some((m, j)) => {
                &&& i <= j <= end
                &&& pm_basic_get_ok(buf@.subrange(i as int, end as int))
                    == Some((m@, buf@.subrange(j as int, end as int)))
            },
            None => pm_basic_get_ok(buf@.subrange(i as int, end as int)) is None,
        },
{
    match rm_basic_get_ok_a(buf, i, end) {
        None => None,
        Some(((delivery_tag, fl, exchange, routing_key), j)) => {
            if fl & 0xFE != 0 {
                return None;
            }
            match rd_u32(buf, j, end) {
                None => None,
                Some((message_count, j)) => {
                    let m = Method::BasicGetOk { delivery_tag, redelivered: (fl & 1) != 0, exchange, routing_key, message_count };
                    Some((m, j))
                },
            }
        },
    }
}

fn rm_basic_get_empty(buf: &Vec<u8>, i: usize, end: usize) -> (r: Option<(Method, usize)>)
    requires
        i <= end,
        end <= buf@.len(),
    ensures
        match r {
            Some((m, j)) => {
                &&& i <= j <= end
                &&& pm_basic_get_empty(buf@.subrange(i as int, end as int))
                    == Some((m@, buf@.subrange(j as int, end as int)))
            },
            None => pm_basic_get_empty(buf@.subrange(i as int, end as int)) is None,
        },
{
    match rd_shortstr(buf, i, end) {
        None => None,
        Some((cluster_id, j)) => {
            let m = Method::BasicGetEmpty { cluster_id };
            Some((m, j))
        },
    }
}

fn rm_basic_ack(buf: &Vec<u8>, i: usize, end: usize) -> (r: Option<(Method, usize)>)
    requires
        i <= end,
        end <= buf@.len(),
    ensures
        match r {
            Some((m, j)) => {
                &&& i <= j <= end
                &&& pm_basic_ack(buf@.subrange(i as int, end as int))
                    == Some((m@, buf@.subrange(j as int, end as int)))
            },
            None => pm_basic_ack(buf@.subrange(i as int, end as int)) is None,
        },
{
    match rd_u64(buf, i, end) {
        None => None,
        Some((delivery_tag, j)) => {
            match rd_u8(buf, j, end) {
                None => None,
                Some((fl, j)) => {
                    if fl & 0xFE != 0 {
                        return None;
                    }
                    let m = Method::BasicAck { delivery_tag, multiple: (fl & 1) != 0 };
                    Some((m, j))
                },
            }
        },
    }
}

fn rm_basic_reject(buf: &Vec<u8>, i: usize, end: usize) -> (r: Option<(Method, usize)>)
    requires
        i <= end,
        end <= buf@.len(),
    ensures
        match r {
            Some((m, j)) => {
                &&& i <= j <= end
                &&& pm_basic_reject(buf@.subrange(i as int, end as int))
                    == Some((m@, buf@.subrange(j as int, end as int)))
            },
            None => pm_basic_reject(buf@.subrange(i as int, end as int)) is None,
        },
{
    match rd_u64(buf, i, end) {
        None => None,
        Some((delivery_tag, j)) => {
            match rd_u8(buf, j, end) {
                None => None,
                Some((fl, j)) => {
                    if fl & 0xFE != 0 {
                        return None;
                    }
                    let m = Method::BasicReject { delivery_tag, requeue: (fl & 1) != 0 };
                    Some((m, j))
                },
            }
        },
    }
}

fn rm_basic_nack(buf: &Vec<u8>, i: usize, end: usize) -> (r: Option<(Method, usize)>)
    requires
        i <= end,
        end <= buf@.len(),
    ensures
        match r {
            Some((m, j)) => {
                &&& i <= j <= end
                &&& pm_basic_nack(buf@.subrange(i as int, end as int))
                    == Some((m@, buf@.subrange(j as int, end as int)))
            },
            None => pm_basic_nack(buf@.subrange(i as int, end as int)) is None,
        },
{
    match rd_u64(buf, i, end) {
        None => None,
        Some((delivery_tag, j)) => {
            match rd_u8(buf, j, end) {
                None => None,
                Some((fl, j)) => {
                    if fl & 0xFC != 0 {
                        return None;
                    }
                    let m = Method::BasicNack { delivery_tag, multiple: (fl & 1) != 0, requeue: (fl & 2) != 0 };
                    Some((m, j))
                },
            }
        },
    }
}

fn rm_confirm_select(buf: &Vec<u8>, i: usize, end: usize) -> (r: Option<(Method, usize)>)
    requires
        i <= end,
        end <= buf@.len(),
    ensures
        match r {
            Some((m, j)) => {
                &&& i <= j <= end
                &&& pm_confirm_select(buf@.subrange(i as int, end as int))
                    == Some((m@, buf@.subrange(j as int, end as int)))
            },
            None => pm_confirm_select(buf@.subrange(i as int, end as int)) is None,
        },
{
    match rd_u8(buf, i, end) {
        None => None,
        Some((fl, j)) => {
            if fl & 0xFE != 0 {
                return None;
            }
            let m = Method::ConfirmSelect { nowait: (fl & 1) != 0 };
            Some((m, j))
        },
    }
}


// ---------------------------------------------------------------------------
// Dispatch by class and method id
// ---------------------------------------------------------------------------

fn rd_args_connection(mid: u16, buf: &Vec<u8>, i: usize, end: usize) -> (r: Option<
    (Method, usize),
>)
    requires
        i <= end,
        end <= buf@.len(),
    ensures
        match r {
            Some((m, j)) => {
                &&& i <= j <= end
                &&& parse_args_connection(mid, buf@.subrange(i as int, end as int))
                    == Some((m@, buf@.subrange(j as int, end as int)))
            },
            None => parse_args_connection(mid, buf@.subrange(i as int, end as int)) is None,
        },
{
    if mid == 10 {
        rm_connection_start(buf, i, end)
    } else if mid == 11 {
        rm_connection_start_ok(buf, i, end)
    } else if mid == 30 {
        rm_connection_tune(buf, i, end)
    } else if mid == 31 {
        rm_connection_tune_ok(buf, i, end)
    } else if mid == 40 {
        rm_connection_open(buf, i, end)
    } else if mid == 41 {
        rm_connection_open_ok(buf, i, end)
    } else if mid == 50 {
        rm_connection_close(buf, i, end)
    } else if mid == 51 {
        Some((Method::ConnectionCloseOk, i))
    } else {
        None
    }
}

fn rd_args_channel(mid: u16, buf: &Vec<u8>, i: usize, end: usize) -> (r: Option<(Method, usize)>)
    requires
        i <= end,
        end <= buf@.len(),
    ensures
        match r {
            Some((m, j)) => {
                &&& i <= j <= end
                &&& parse_args_channel(mid, buf@.subrange(i as int, end as int))
                    == Some((m@, buf@.subrange(j as int, end as int)))
            },
            None => parse_args_channel(mid, buf@.subrange(i as int, end as int)) is None,
        },
{
    if mid == 10 {
        rm_channel_open(buf, i, end)
    } else if mid == 11 {
        rm_channel_open_ok(buf, i, end)
    } else if mid == 20 {
        rm_channel_flow(buf, i, end)
    } else if mid == 21 {
        rm_channel_flow_ok(buf, i, end)
    } else if mid == 40 {
        rm_channel_close(buf, i, end)
    } else if mid == 41 {
        Some((Method::ChannelCloseOk, i))
    } else {
        None
    }
}

fn rd_args_access(mid: u16, buf: &Vec<u8>, i: usize, end: usize) -> (r: Option<(Method, usize)>)
    requires
        i <= end,
        end <= buf@.len(),
    ensures
        match r {
            Some((m, j)) => {
                &&& i <= j <= end
                &&& parse_args_access(mid, buf@.subrange(i as int, end as int))
                    == Some((m@, buf@.subrange(j as int, end as int)))
            },
            None => parse_args_access(mid, buf@.subrange(i as int, end as int)) is None,
        },
{
    if mid == 10 {
        rm_access_request(buf, i, end)
    } else if mid == 11 {
        rm_access_request_ok(buf, i, end)
    } else {
        None
    }
}

fn rd_args_exchange(mid: u16, buf: &Vec<u8>, i: usize, end: usize) -> (r: Option<(Method, usize)>)
    requires
        i <= end,
        end <= buf@.len(),
    ensures
        match r {
            Some((m, j)) => {
                &&& i <= j <= end
                &&& parse_args_exchange(mid, buf@.subrange(i as int, end as int))
                    == Some((m@, buf@.subrange(j as int, end as int)))
            },
            None => parse_args_exchange(mid, buf@.subrange(i as int, end as int)) is None,
        },
{
    if mid == 10 {
        rm_exchange_declare(buf, i, end)
    } else if mid == 11 {
        Some((Method::ExchangeDeclareOk, i))
    } else if mid == 20 {
        rm_exchange_delete(buf, i, end)
    } else if mid == 21 {
        Some((Method::ExchangeDeleteOk, i))
    } else if mid == 30 {
        rm_exchange_bind(buf, i, end)
    } else if mid == 31 {
        Some((Method::ExchangeBindOk, i))
    } else if mid == 40 {
        rm_exchange_unbind(buf, i, end)
    } else if mid == 51 {
        Some((Method::ExchangeUnbindOk, i))
    } else {
        None
    }
}

fn rd_args_queue(mid: u16, buf: &Vec<u8>, i: usize, end: usize) -> (r: Option<(Method, usize)>)
    requires
        i <= end,
        end <= buf@.len(),
    ensures
        match r {
            Some((m, j)) => {
                &&& i <= j <= end
                &&& parse_args_queue(mid, buf@.subrange(i as int, end as int))
                    == Some((m@, buf@.subrange(j as int, end as int)))
            },
            None => parse_args_queue(mid, buf@.subrange(i as int, end as int)) is None,
        },
{
    if mid == 10 {
        rm_queue_declare(buf, i, end)
    } else if mid == 11 {
        rm_queue_declare_ok(buf, i, end)
    } else if mid == 20 {
        rm_queue_bind(buf, i, end)
    } else if mid == 21 {
        Some((Method::QueueBindOk, i))
    } else if mid == 30 {
        rm_queue_purge(buf, i, end)
    } else if mid == 31 {
        rm_queue_purge_ok(buf, i, end)
    } else if mid == 40 {
        rm_queue_delete(buf, i, end)
    } else if mid == 41 {
        rm_queue_delete_ok(buf, i, end)
    } else if mid == 50 {
        rm_queue_unbind(buf, i, end)
    } else if mid == 51 {
        Some((Method::QueueUnbindOk, i))
    } else {
        None
    }
}

fn rd_args_basic(mid: u16, buf: &Vec<u8>, i: usize, end: usize) -> (r: Option<(Method, usize)>)
    requires
        i <= end,
        end <= buf@.len(),
    ensures
        match r {
            Some((m, j)) => {
                &&& i <= j <= end
                &&& parse_args_basic(mid, buf@.subrange(i as int, end as int))
                    == Some((m@, buf@.subrange(j as int, end as int)))
            },
            None => parse_args_basic(mid, buf@.subrange(i as int, end as int)) is None,
        },
{
    if mid == 10 {
        rm_basic_qos(buf, i, end)
    } else if mid == 11 {
        Some((Method::BasicQosOk, i))
    } else if mid == 20 {
        rm_basic_consume(buf, i, end)
    } else if mid == 21 {
        rm_basic_consume_ok(buf, i, end)
    } else if mid == 40 {
        rm_basic_publish(buf, i, end)
    } else if mid == 50 {
        rm_basic_return(buf, i, end)
    } else if mid == 60 {
        rm_basic_deliver(buf, i, end)
    } else if mid == 70 {
        rm_basic_get(buf, i, end)
    } else if mid == 71 {
        rm_basic_get_ok(buf, i, end)
    } else if mid == 72 {
        rm_basic_get_empty(buf, i, end)
    } else if mid == 80 {
        rm_basic_ack(buf, i, end)
    } else if mid == 90 {
        rm_basic_reject(buf, i, end)
    } else if mid == 120 {
        rm_basic_nack(buf, i, end)
    } else {
        None
    }
}

fn rd_args_confirm(mid: u16, buf: &Vec<u8>, i: usize, end: usize) -> (r: Option<(Method, usize)>)
    requires
        i <= end,
        end <= buf@.len(),
    ensures
        match r {
            Some((m, j)) => {
                &&& i <= j <= end
                &&& parse_args_confirm(mid, buf@.subrange(i as int, end as int))
                    == Some((m@, buf@.subrange(j as int, end as int)))
            },
            None => parse_args_confirm(mid, buf@.subrange(i as int, end as int)) is None,
        },
{
    if mid == 10 {
        rm_confirm_select(buf, i, end)
    } else if mid == 11 {
        Some((Method::ConfirmSelectOk, i))
    } else {
        None
    }
}

fn rd_args(cls: u16, mid: u16, buf: &Vec<u8>, i: usize, end: usize) -> (r: Option<(Method, usize)>)
    requires
        i <= end,
        end <= buf@.len(),
    ensures
        match r {
            Some((m, j)) => {
                &&& i <= j <= end
                &&& parse_args(cls, mid, buf@.subrange(i as int, end as int))
                    == Some((m@, buf@.subrange(j as int, end as int)))
            },
            None => parse_args(cls, mid, buf@.subrange(i as int, end as int)) is None,
        },
{
    if cls == 10 {
        rd_args_connection(mid, buf, i, end)
    } else if cls == 20 {
        rd_args_channel(mid, buf, i, end)
    } else if cls == 30 {
        rd_args_access(mid, buf, i, end)
    } else if cls == 40 {
        rd_args_exchange(mid, buf, i, end)
    } else if cls == 50 {
        rd_args_queue(mid, buf, i, end)
    } else if cls == 60 {
        rd_args_basic(mid, buf, i, end)
    } else if cls == 85 {
        rd_args_confirm(mid, buf, i, end)
    } else {
        None
    }
}

// ---------------------------------------------------------------------------
// Frame level
// ---------------------------------------------------------------------------

fn rd_method_payload(buf: &Vec<u8>, start: usize, end: usize) -> (r: Option<Method>)
    requires
        start <= end,
        end <= buf@.len(),
    ensures
        match r {
            Some(m) => parse_method_payload(buf@.subrange(start as int, end as int))
                == Some(m@),
            None => parse_method_payload(buf@.subrange(start as int, end as int)) is None,
        },
{
    match rd_u16(buf, start, end) {
        None => None,
        Some((cls, j)) => match rd_u16(buf, j, end) {
            None => None,
            Some((mid, j)) => match rd_args(cls, mid, buf, j, end) {
                None => None,
                Some((m, j2)) => {
                    if j2 == end {
                        proof {
                            assert(buf@.subrange(j2 as int, end as int).len() == 0);
                        }
                        Some(m)
                    } else {
                        proof {
                            assert(buf@.subrange(j2 as int, end as int).len() != 0);
                        }
                        None
                    }
                },
            },
        },
    }
}

fn rd_header_payload(buf: &Vec<u8>, start: usize, end: usize) -> (r: Option<(u16, ContentHeader)>)
    requires
        start <= end,
        end <= buf@.len(),
    ensures
        match r {
            Some((cls, h)) => parse_header_payload(buf@.subrange(start as int, end as int))
                == Some((cls, h@)),
            None => parse_header_payload(buf@.subrange(start as int, end as int)) is None,
        },
{
    match rd_u16(buf, start, end) {
        None => None,
        Some((cls, j)) => match rd_u16(buf, j, end) {
            None => None,
            Some((weight, j)) => {
                if weight != 0 {
                    None
                } else {
                    match rd_u64(buf, j, end) {
                        None => None,
                        Some((body_size, j)) => match rd_props(buf, j, end) {
                            None => None,
                            Some((properties, j2)) => {
                                if j2 == end {
                                    proof {
                                        assert(buf@.subrange(j2 as int, end as int).len() == 0);
                                    }
                                    Some((cls, ContentHeader { body_size, properties }))
                                } else {
                                    proof {
                                        assert(buf@.subrange(j2 as int, end as int).len() != 0);
                                    }
                                    None
                                }
                            },
                        },
                    }
                }
            },
        },
    }
}

/// The outcome of trying to decode one frame from the front of a buffer.
#[derive(Debug)]
pub enum DecodeOutcome {
    /// Too few bytes for a whole frame; nothing was consumed.
    Incomplete,
    /// Structurally invalid bytes.
    Malformed,
    /// One whole frame and the number of bytes it occupied.
    Decoded(Frame, usize),
}

/// Decode one frame starting at `start`, mirroring the specification parser
/// on the buffer's remaining bytes.
#[verifier::spinoff_prover]
#[verifier::rlimit(100)]
pub fn decode_frame(buf: &Vec<u8>, start: usize) -> (r: DecodeOutcome)
    requires
        start <= buf@.len(),
    ensures
        ({
            let w = buf@.subrange(start as int, buf@.len() as int);
            match r {
                DecodeOutcome::Incomplete => parse_frame(w) is Incomplete,
                DecodeOutcome::Malformed => parse_frame(w) is Malformed,
                DecodeOutcome::Decoded(f, c) => {
                    &&& start + c <= buf@.len()
                    &&& parse_frame(w) == FrameParse::Parsed(f@, c as nat)
                },
            }
        }),
{
    let blen = buf.len();
    let ghost w = buf@.subrange(start as int, blen as int);
    proof {
        assert(forall|k: int| 0 <= k < w.len() ==> w[k] == buf@[start + k]);
    }
    if start == blen {
        return DecodeOutcome::Incomplete;
    }
    let t = buf[start];
    if t == 65 {
        let mut k: usize = 1;
        while k < 8
            invariant
                1 <= k <= 8,
                start < blen,
                blen == buf@.len(),
                w == buf@.subrange(start as int, blen as int),
                start + k <= blen,
                forall|j: int| 0 <= j < k ==> w[j] == protocol_header_bytes()[j],
            decreases 8 - k,
        {
            if start + k >= blen {
                proof {
                    assert(w.len() == blen - start);
                    assert(w.len() < 8);
                    assert(forall|j: int| 0 <= j < w.len() && j < 8
                        ==> w[j] == protocol_header_bytes()[j]);
                }
                return DecodeOutcome::Incomplete;
            }
            let expect: u8 = if k == 1 {
                77
            } else if k == 2 {
                81
            } else if k == 3 {
                80
            } else if k == 6 {
                9
            } else if k == 7 {
                1
            } else {
                0
            };
            proof {
                assert(expect == protocol_header_bytes()[k as int]);
                assert(w[k as int] == buf@[start + k]);
            }
            if buf[start + k] != expect {
                proof {
                    assert(w[k as int] != protocol_header_bytes()[k as int]);
                }
                return DecodeOutcome::Malformed;
            }
            k = k + 1;
        }
        proof {
            assert(w.len() >= 8);
            assert(forall|j: int| 0 <= j < w.len() && j < 8
                ==> w[j] == protocol_header_bytes()[j]);
        }
        DecodeOutcome::Decoded(Frame::ProtocolHeader, 8)
    } else if t == 1 || t == 2 || t == 3 || t == 8 {
        if blen - start < 7 {
            return DecodeOutcome::Incomplete;
        }
        let ch: u16 = ((buf[start + 1] as u16) << 8) | (buf[start + 2] as u16);
        let size: u32 = ((buf[start + 3] as u32) << 24) | ((buf[start + 4] as u32) << 16)
            | ((buf[start + 5] as u32) << 8) | (buf[start + 6] as u32);
        proof {
            assert(w[0] == t);
            assert(w[1] == buf@[start + 1]);
            assert(w[2] == buf@[start + 2]);
            assert(w[3] == buf@[start + 3]);
            assert(w[4] == buf@[start + 4]);
            assert(w[5] == buf@[start + 5]);
            assert(w[6] == buf@[start + 6]);
            assert(ch == be_u16(w[1], w[2]));
            assert(size == be_u32(w[3], w[4], w[5], w[6]));
        }
        if ((blen - start) as u64) < 8u64 + (size as u64) {
            return DecodeOutcome::Incomplete;
        }
        let size_us = size as usize;
        let total = 8 + size_us;
        let fend = start + total;
        proof {
            assert(fend <= blen);
            assert(w[(total - 1) as int] == buf@[fend - 1]);
        }
        if buf[fend - 1] != 0xCE {
            return DecodeOutcome::Malformed;
        }
        let pstart = start + 7;
        let pend = pstart + size_us;
        proof {
            assert(w.subrange(7, 7 + size as int) =~= buf@.subrange(pstart as int, pend as int));
        }
        if t == 8 {
            if size == 0 {
                DecodeOutcome::Decoded(Frame::Heartbeat(ch), 8)
            } else {
                DecodeOutcome::Malformed
            }
        } else if t == 3 {
            let data = copy_range(buf, pstart, pend);
            DecodeOutcome::Decoded(Frame::Body(ch, data), total)
        } else if t == 1 {
            match rd_method_payload(buf, pstart, pend) {
                Some(m) => DecodeOutcome::Decoded(Frame::Method(ch, m), total),
                None => DecodeOutcome::Malformed,
            }
        } else {
            match rd_header_payload(buf, pstart, pend) {
                Some((cls, h)) => DecodeOutcome::Decoded(Frame::Header(ch, cls, h), total),
                None => DecodeOutcome::Malformed,
            }
        }
    } else {
        DecodeOutcome::Malformed
    }
}

/// Consume zero or one whole frame from the front of a growable buffer:
/// `Ok(Some(frame))` removes the frame's bytes, `Ok(None)` means more bytes
/// are needed and the buffer is untouched, and structurally invalid bytes
/// fail with `ParseError`.
pub fn decode(buf: &mut Vec<u8>) -> (r: Result<Option<Frame>, Error>)
    ensures
        match parse_frame(old(buf)@) {
            FrameParse::Incomplete => r == Ok::<Option<Frame>, Error>(None)
                && final(buf)@ == old(buf)@,
            FrameParse::Malformed => r == Err::<Option<Frame>, Error>(Error::ParseError)
                && final(buf)@ == old(buf)@,
            FrameParse::Parsed(fv, c) => {
                &&& match r {
                    Ok(Some(f)) => f@ == fv,
                    _ => false,
                }
                &&& final(buf)@ == old(buf)@.skip(c as int)
            },
        },
{
    proof {
        assert(buf@.subrange(0, buf@.len() as int) =~= buf@);
    }
    match decode_frame(buf, 0) {
        DecodeOutcome::Incomplete => Ok(None),
        DecodeOutcome::Malformed => Err(Error::ParseError),
        DecodeOutcome::Decoded(f, c) => {
            let rest = copy_range(buf, c, buf.len());
            proof {
                assert(rest@ =~= buf@.skip(c as int));
            }
            *buf = rest;
            Ok(Some(f))
        },
    }
}


} // verus!
