//! End-to-end runs of the connection state machine: handshake, declare and
//! bind, publish with confirms, consume, basic-get, and channel errors.

use amqp_core::connection::{
    ChannelStatus, ConfirmPoll, Connection, ConnectionState, ConnectingState,
    negotiate_u16, negotiate_u32,
};
use amqp_core::frame::{BasicProperties, ContentHeader, Frame, Method};
use amqp_core::message::Delivery;
use amqp_core::queue::Binding;
use amqp_core::transport::{next_outgoing, process_incoming, AMQPCodec};
use amqp_core::encode::encode_frame;
use amqp_core::options::{BasicPublishOptions, QueueDeclareOptions};
use amqp_core::Error;

fn b(s: &str) -> Vec<u8> {
    s.as_bytes().to_vec()
}

/// Run the handshake of the connect scenario: the broker replays
/// `connection.start`, tunes to {2047, 131072, 60} against the client's
/// {0, 0, 0}, and opens the default virtual host.
fn connected() -> Connection {
    let mut conn = Connection::new();
    conn.connect().unwrap();
    assert_eq!(
        conn.state,
        ConnectionState::Connecting(ConnectingState::SentProtocolHeader)
    );
    assert_eq!(conn.next_frame(), Some(Frame::ProtocolHeader));

    conn.handle_frame(Frame::Method(0, Method::ConnectionStart {
        version_major: 0,
        version_minor: 9,
        server_properties: vec![],
        mechanisms: b("PLAIN AMQPLAIN"),
        locales: b("en_US"),
    }))
    .unwrap();
    match conn.next_frame() {
        Some(Frame::Method(0, Method::ConnectionStartOk { mechanism, response, locale, .. })) => {
            assert_eq!(mechanism, b("PLAIN"));
            assert_eq!(response, b("\0guest\0guest"));
            assert_eq!(locale, b("en_US"));
        },
        other => panic!("expected start-ok, got {other:?}"),
    }

    conn.handle_frame(Frame::Method(0, Method::ConnectionTune {
        channel_max: 2047,
        frame_max: 131072,
        heartbeat: 60,
    }))
    .unwrap();
    assert_eq!(conn.configuration.channel_max, 2047);
    assert_eq!(conn.configuration.frame_max, 131072);
    assert_eq!(conn.configuration.heartbeat, 60);
    assert_eq!(
        conn.next_frame(),
        Some(Frame::Method(0, Method::ConnectionTuneOk {
            channel_max: 2047,
            frame_max: 131072,
            heartbeat: 60,
        }))
    );
    assert_eq!(
        conn.next_frame(),
        Some(Frame::Method(0, Method::ConnectionOpen {
            virtual_host: b("/"),
            capabilities: b(""),
            insist: false,
        }))
    );

    conn.handle_frame(Frame::Method(0, Method::ConnectionOpenOk { known_hosts: b("") }))
        .unwrap();
    assert_eq!(conn.state, ConnectionState::Connected);
    conn
}

/// Open one channel and drain its frames.
fn with_open_channel(conn: &mut Connection) -> u16 {
    let id = conn.create_channel().unwrap();
    conn.channel_open(id).unwrap();
    while conn.next_frame().is_some() {}
    conn.handle_frame(Frame::Method(id, Method::ChannelOpenOk { channel_id: b("") })).unwrap();
    assert_eq!(conn.channels[id as usize].state, ChannelStatus::Open);
    id
}

#[test]
fn handshake_reaches_connected() {
    connected();
}

#[test]
fn an_unexpected_frame_during_handshake_is_fatal() {
    let mut conn = Connection::new();
    conn.connect().unwrap();
    let r = conn.handle_frame(Frame::Heartbeat(0));
    assert_eq!(r, Err(Error::InvalidState));
    assert_eq!(conn.state, ConnectionState::Error);
}

#[test]
fn tunables_negotiate_to_the_minimum_with_zero_meaning_no_limit() {
    assert_eq!(negotiate_u32(0, 131072), 131072);
    assert_eq!(negotiate_u32(4096, 0), 4096);
    assert_eq!(negotiate_u32(8192, 131072), 8192);
    assert_eq!(negotiate_u32(131072, 8192), 8192);
    assert_eq!(negotiate_u32(0, 0), 0);
    assert_eq!(negotiate_u16(0, 2047), 2047);
    assert_eq!(negotiate_u16(100, 2047), 100);
}

#[test]
fn declare_and_bind_register_queue_and_binding() {
    let mut conn = connected();
    let ch = with_open_channel(&mut conn);

    let declare_id = conn
        .queue_declare(ch, 0, b("q"), false, true, false, false, false, vec![])
        .unwrap()
        .unwrap();
    assert_eq!(conn.is_finished(declare_id), None);
    conn.handle_frame(Frame::Method(ch, Method::QueueDeclareOk {
        queue: b("q"),
        message_count: 0,
        consumer_count: 0,
    }))
    .unwrap();
    assert_eq!(conn.is_finished(declare_id), Some(true));
    let q = &conn.channels[ch as usize].queues[0];
    assert_eq!(q.name, b("q"));
    assert!(q.created);
    assert!(q.durable);

    let bind_id = conn
        .queue_bind(ch, 0, b("q"), b("amq.direct"), b("k"), false, vec![])
        .unwrap()
        .unwrap();
    conn.handle_frame(Frame::Method(ch, Method::QueueBindOk)).unwrap();
    assert_eq!(conn.is_finished(bind_id), Some(true));
    let q = &conn.channels[ch as usize].queues[0];
    assert_eq!(q.bindings.len(), 1);
    assert_eq!(
        q.bindings[0],
        Binding { exchange: b("amq.direct"), routing_key: b("k"), no_wait: false, active: true }
    );
}

#[test]
fn publish_with_confirm_resolves_on_ack() {
    let mut conn = connected();
    let ch = with_open_channel(&mut conn);

    let sel = conn.confirm_select(ch, false).unwrap().unwrap();
    conn.handle_frame(Frame::Method(ch, Method::ConfirmSelectOk)).unwrap();
    assert_eq!(conn.is_finished(sel), Some(true));
    assert!(conn.channels[ch as usize].confirm);

    conn.configuration.frame_max = 15;
    let opts = BasicPublishOptions::default();
    let tag = conn
        .basic_publish(ch, opts.ticket, b(""), b("k"), opts.mandatory, opts.immediate)
        .unwrap();
    assert_eq!(tag, Some(1));
    conn.send_content_frames(ch, 60, &b("hello"), BasicProperties::default()).unwrap();

    while !matches!(conn.next_frame(), Some(Frame::Method(_, Method::BasicPublish { .. }))) {}
    match conn.next_frame() {
        Some(Frame::Header(c, 60, h)) => {
            assert_eq!(c, ch);
            assert_eq!(h.body_size, 5);
        },
        other => panic!("expected header frame, got {other:?}"),
    }
    assert_eq!(conn.next_frame(), Some(Frame::Body(ch, b("hello"))));
    assert_eq!(conn.next_frame(), None);
    assert_eq!(conn.channels[ch as usize].unacked, vec![1]);

    conn.handle_frame(Frame::Method(ch, Method::BasicAck { delivery_tag: 1, multiple: false }))
        .unwrap();
    assert!(conn.channels[ch as usize].unacked.is_empty());
    assert_eq!(conn.poll_publish_confirm(ch, 1), ConfirmPoll::Acked);
    assert_eq!(conn.poll_publish_confirm(ch, 1), ConfirmPoll::Pending);
}

#[test]
fn a_multiple_ack_and_a_nack_drain_every_outstanding_tag() {
    let mut conn = connected();
    let ch = with_open_channel(&mut conn);
    conn.confirm_select(ch, true).unwrap();

    for _ in 0..4 {
        conn.basic_publish(ch, 0, b(""), b("k"), false, false).unwrap();
    }
    assert_eq!(conn.channels[ch as usize].unacked, vec![1, 2, 3, 4]);

    conn.handle_frame(Frame::Method(ch, Method::BasicNack {
        delivery_tag: 3,
        multiple: false,
        requeue: false,
    }))
    .unwrap();
    conn.handle_frame(Frame::Method(ch, Method::BasicAck { delivery_tag: 4, multiple: true }))
        .unwrap();
    assert!(conn.channels[ch as usize].unacked.is_empty());
    assert_eq!(conn.poll_publish_confirm(ch, 3), ConfirmPoll::Nacked);
    for t in [1u64, 2, 4] {
        assert_eq!(conn.poll_publish_confirm(ch, t), ConfirmPoll::Acked);
    }
}

#[test]
fn consume_assembles_one_delivery_from_header_and_body() {
    let mut conn = connected();
    let ch = with_open_channel(&mut conn);
    conn.queue_declare(ch, 0, b("q"), false, false, false, false, false, vec![]).unwrap();
    conn.handle_frame(Frame::Method(ch, Method::QueueDeclareOk {
        queue: b("q"),
        message_count: 0,
        consumer_count: 0,
    }))
    .unwrap();

    let id = conn
        .basic_consume(ch, 0, b("q"), b("c"), false, false, false, false, vec![])
        .unwrap()
        .unwrap();
    conn.handle_frame(Frame::Method(ch, Method::BasicConsumeOk { consumer_tag: b("c") }))
        .unwrap();
    assert_eq!(conn.is_finished(id), Some(true));

    conn.handle_frame(Frame::Method(ch, Method::BasicDeliver {
        consumer_tag: b("c"),
        delivery_tag: 42,
        redelivered: false,
        exchange: b(""),
        routing_key: b("k"),
    }))
    .unwrap();
    conn.handle_frame(Frame::Header(ch, 60, ContentHeader {
        body_size: 3,
        properties: BasicProperties::default(),
    }))
    .unwrap();
    assert_eq!(conn.next_delivery(ch, &b("q"), &b("c")), None);
    conn.handle_frame(Frame::Body(ch, b("ab"))).unwrap();
    conn.handle_frame(Frame::Body(ch, b("c"))).unwrap();

    let d = conn.next_delivery(ch, &b("q"), &b("c")).expect("one delivery");
    assert_eq!(d.delivery_tag, 42);
    assert_eq!(d.data, b("abc"));
    assert_eq!(d.routing_key, b("k"));
    assert_eq!(conn.next_delivery(ch, &b("q"), &b("c")), None);

    while conn.next_frame().is_some() {}
    conn.basic_ack(ch, 42, false).unwrap();
    assert_eq!(
        conn.next_frame(),
        Some(Frame::Method(ch, Method::BasicAck { delivery_tag: 42, multiple: false }))
    );
}

#[test]
fn basic_get_on_an_empty_queue_reports_the_empty_case() {
    let mut conn = connected();
    let ch = with_open_channel(&mut conn);
    let id = conn.basic_get(ch, 0, b("q"), false).unwrap();
    assert_eq!(conn.finished_get_result(id), None);
    conn.handle_frame(Frame::Method(ch, Method::BasicGetEmpty { cluster_id: b("") })).unwrap();
    assert_eq!(conn.finished_get_result(id), Some(false));
    assert_eq!(conn.is_finished(id), None);
}

#[test]
fn basic_get_with_a_message_assembles_it_into_the_queue_fifo() {
    let mut conn = connected();
    let ch = with_open_channel(&mut conn);
    conn.queue_declare(ch, 0, b("q"), false, false, false, false, false, vec![]).unwrap();
    conn.handle_frame(Frame::Method(ch, Method::QueueDeclareOk {
        queue: b("q"),
        message_count: 1,
        consumer_count: 0,
    }))
    .unwrap();

    let id = conn.basic_get(ch, 0, b("q"), false).unwrap();
    conn.handle_frame(Frame::Method(ch, Method::BasicGetOk {
        delivery_tag: 7,
        redelivered: false,
        exchange: b(""),
        routing_key: b("k"),
        message_count: 0,
    }))
    .unwrap();
    assert_eq!(conn.finished_get_result(id), Some(true));
    conn.handle_frame(Frame::Header(ch, 60, ContentHeader {
        body_size: 2,
        properties: BasicProperties::default(),
    }))
    .unwrap();
    conn.handle_frame(Frame::Body(ch, b("ok"))).unwrap();
    let m = conn.next_basic_get_message(ch, &b("q")).expect("one message");
    assert_eq!(m.delivery.delivery_tag, 7);
    assert_eq!(m.delivery.data, b("ok"));
    assert_eq!(conn.next_basic_get_message(ch, &b("q")), None);
}

#[test]
fn a_broker_channel_close_fails_pending_requests_and_later_operations() {
    let mut conn = connected();
    let ch1 = with_open_channel(&mut conn);
    let ch2 = with_open_channel(&mut conn);
    assert_eq!((ch1, ch2), (1, 2));

    conn.basic_publish(ch2, 0, b("missing"), b("k"), false, false).unwrap();
    let pending = conn
        .queue_declare(ch2, 0, b("q2"), false, false, false, false, false, vec![])
        .unwrap()
        .unwrap();
    while conn.next_frame().is_some() {}

    conn.handle_frame(Frame::Method(ch2, Method::ChannelClose {
        reply_code: 404,
        reply_text: b("NOT_FOUND"),
        class_id: 60,
        method_id: 40,
    }))
    .unwrap();
    assert_eq!(
        conn.next_frame(),
        Some(Frame::Method(ch2, Method::ChannelCloseOk))
    );
    assert_eq!(conn.channels[ch2 as usize].state, ChannelStatus::Closed);
    assert_eq!(conn.channels[ch2 as usize].error_code, 404);
    assert_eq!(
        conn.channel_error(ch2),
        Some(Error::ProtocolError {
            code: 404,
            reason: b("NOT_FOUND"),
            class_id: 60,
            method_id: 40,
        })
    );
    assert_eq!(conn.channel_error(ch1), None);
    assert_eq!(conn.is_finished(pending), Some(false));

    let rejected = conn.queue_declare(ch2, 0, b("q3"), false, false, false, false, false, vec![]);
    assert_eq!(
        rejected,
        Err(Error::ChannelClosed { code: 404, reason: b("NOT_FOUND") })
    );
    let unaffected = conn
        .queue_declare(ch1, 0, b("q1"), false, false, false, false, false, vec![])
        .unwrap();
    assert!(unaffected.is_some());
}

#[test]
fn a_connection_close_fails_everything_and_acknowledges() {
    let mut conn = connected();
    let ch = with_open_channel(&mut conn);
    let id = conn
        .queue_declare(ch, 0, b("q"), false, false, false, false, false, vec![])
        .unwrap()
        .unwrap();
    while conn.next_frame().is_some() {}
    conn.handle_frame(Frame::Method(0, Method::ConnectionClose {
        reply_code: 320,
        reply_text: b("CONNECTION_FORCED"),
        class_id: 0,
        method_id: 0,
    }))
    .unwrap();
    assert_eq!(conn.state, ConnectionState::Closed);
    assert_eq!(conn.close_code, 320);
    assert_eq!(conn.next_frame(), Some(Frame::Method(0, Method::ConnectionCloseOk)));
    assert_eq!(conn.is_finished(id), Some(false));
    assert_eq!(
        conn.queue_declare(ch, 0, b("x"), false, false, false, false, false, vec![]),
        Err(Error::ConnectionClosed { code: 320, reason: b("CONNECTION_FORCED") })
    );
}

#[test]
fn flow_control_gates_publishes() {
    let mut conn = connected();
    let ch = with_open_channel(&mut conn);
    conn.handle_frame(Frame::Method(ch, Method::ChannelFlow { active: false })).unwrap();
    assert!(!conn.channels[ch as usize].send_flow);
    assert_eq!(
        conn.basic_publish(ch, 0, b(""), b("k"), false, false),
        Err(Error::InvalidState)
    );
    conn.handle_frame(Frame::Method(ch, Method::ChannelFlow { active: true })).unwrap();
    assert_eq!(conn.basic_publish(ch, 0, b(""), b("k"), false, false), Ok(None));
}

#[test]
fn long_payloads_are_chunked_to_the_negotiated_frame_size() {
    let mut conn = connected();
    let ch = with_open_channel(&mut conn);
    conn.configuration.frame_max = 15;
    let payload: Vec<u8> = (0u8..20).collect();
    conn.send_content_frames(ch, 60, &payload, BasicProperties::default()).unwrap();
    match conn.next_frame() {
        Some(Frame::Header(_, 60, h)) => assert_eq!(h.body_size, 20),
        other => panic!("expected header frame, got {other:?}"),
    }
    let mut collected = Vec::new();
    while let Some(f) = conn.next_frame() {
        match f {
            Frame::Body(c, data) => {
                assert_eq!(c, ch);
                assert!(data.len() <= 7);
                collected.extend_from_slice(&data);
            },
            other => panic!("expected body frame, got {other:?}"),
        }
    }
    assert_eq!(collected, payload);
}

#[test]
fn the_transport_pump_drives_the_handshake() {
    let mut conn = Connection::new();
    conn.connect().unwrap();
    let mut wire = Vec::new();
    assert_eq!(next_outgoing(&mut conn, &mut wire), Ok(true));
    assert_eq!(wire, b"AMQP\x00\x00\x09\x01".to_vec());

    let mut rx = Vec::new();
    encode_frame(
        &Frame::Method(0, Method::ConnectionStart {
            version_major: 0,
            version_minor: 9,
            server_properties: vec![],
            mechanisms: b("PLAIN"),
            locales: b("en_US"),
        }),
        &mut rx,
    )
    .unwrap();
    let n = process_incoming(&mut conn, &mut rx).unwrap();
    assert_eq!(n, 1);
    assert!(rx.is_empty());
    assert_eq!(conn.state, ConnectionState::Connecting(ConnectingState::SentStartOk));

    let codec = AMQPCodec { frame_max: 0 };
    let mut out = Vec::new();
    codec.encode(&Frame::Heartbeat(0), &mut out).unwrap();
    let mut out2 = out.clone();
    assert_eq!(codec.decode(&mut out2).unwrap(), Some(Frame::Heartbeat(0)));
}

#[test]
fn requeued_frames_go_out_first() {
    let mut conn = connected();
    conn.send_heartbeat();
    let f = conn.next_frame().unwrap();
    conn.requeue_frame(f);
    assert_eq!(conn.next_frame(), Some(Frame::Heartbeat(0)));
}

#[test]
fn option_groups_default_to_all_clear() {
    let d = QueueDeclareOptions::default();
    assert!(!d.durable && !d.passive && !d.exclusive && !d.auto_delete && !d.nowait);
    assert_eq!(d.ticket, 0);
    let p = BasicPublishOptions::default();
    assert!(!p.mandatory && !p.immediate);
}

#[test]
fn deliveries_accumulate_content_fragments() {
    let mut d = Delivery::new(1, b(""), b("k"), false);
    d.receive_content(b("ab"));
    d.receive_content(b("cd"));
    assert_eq!(d.data, b("abcd"));
}

#[test]
fn exchange_operations_resolve_their_replies() {
    let mut conn = connected();
    let ch = with_open_channel(&mut conn);
    let d = conn
        .exchange_declare(ch, 0, b("logs"), b("fanout"), false, true, false, false, false, vec![])
        .unwrap()
        .unwrap();
    conn.handle_frame(Frame::Method(ch, Method::ExchangeDeclareOk)).unwrap();
    assert_eq!(conn.is_finished(d), Some(true));

    let bi = conn
        .exchange_bind(ch, 0, b("logs"), b("amq.topic"), b("#"), false, vec![])
        .unwrap()
        .unwrap();
    conn.handle_frame(Frame::Method(ch, Method::ExchangeBindOk)).unwrap();
    assert_eq!(conn.is_finished(bi), Some(true));

    let ub = conn
        .exchange_unbind(ch, 0, b("logs"), b("amq.topic"), b("#"), false, vec![])
        .unwrap()
        .unwrap();
    conn.handle_frame(Frame::Method(ch, Method::ExchangeUnbindOk)).unwrap();
    assert_eq!(conn.is_finished(ub), Some(true));

    let del = conn.exchange_delete(ch, 0, b("logs"), false, false).unwrap().unwrap();
    conn.handle_frame(Frame::Method(ch, Method::ExchangeDeleteOk)).unwrap();
    assert_eq!(conn.is_finished(del), Some(true));
}

#[test]
fn queue_unbind_and_delete_update_the_channel_state() {
    let mut conn = connected();
    let ch = with_open_channel(&mut conn);
    conn.queue_declare(ch, 0, b("q"), false, false, false, false, false, vec![]).unwrap();
    conn.handle_frame(Frame::Method(ch, Method::QueueDeclareOk {
        queue: b("q"),
        message_count: 0,
        consumer_count: 0,
    }))
    .unwrap();
    conn.queue_bind(ch, 0, b("q"), b("amq.direct"), b("k"), false, vec![]).unwrap();
    conn.handle_frame(Frame::Method(ch, Method::QueueBindOk)).unwrap();
    assert_eq!(conn.channels[ch as usize].queues[0].bindings.len(), 1);

    conn.queue_unbind(ch, 0, b("q"), b("amq.direct"), b("k"), vec![]).unwrap();
    conn.handle_frame(Frame::Method(ch, Method::QueueUnbindOk)).unwrap();
    assert!(conn.channels[ch as usize].queues[0].bindings.is_empty());

    let pu = conn.queue_purge(ch, 0, b("q"), false).unwrap().unwrap();
    conn.handle_frame(Frame::Method(ch, Method::QueuePurgeOk { message_count: 2 })).unwrap();
    assert_eq!(conn.is_finished(pu), Some(true));

    conn.queue_delete(ch, 0, b("q"), false, false, false).unwrap();
    conn.handle_frame(Frame::Method(ch, Method::QueueDeleteOk { message_count: 0 })).unwrap();
    assert!(conn.channels[ch as usize].queues.is_empty());
}

#[test]
fn qos_access_and_flow_requests_resolve() {
    let mut conn = connected();
    let ch = with_open_channel(&mut conn);
    let q = conn.basic_qos(ch, 0, 10, false).unwrap();
    conn.handle_frame(Frame::Method(ch, Method::BasicQosOk)).unwrap();
    assert_eq!(conn.is_finished(q), Some(true));

    let a = conn.access_request(ch, b("/data"), false, true, true, true, true).unwrap();
    conn.handle_frame(Frame::Method(ch, Method::AccessRequestOk { ticket: 1 })).unwrap();
    assert_eq!(conn.is_finished(a), Some(true));

    let f = conn.channel_flow(ch, false).unwrap();
    conn.handle_frame(Frame::Method(ch, Method::ChannelFlowOk { active: false })).unwrap();
    assert_eq!(conn.is_finished(f), Some(true));
    assert!(!conn.channels[ch as usize].send_flow);
    conn.channel_flow_ok(ch, true).unwrap();
}

#[test]
fn a_client_initiated_close_ends_with_close_ok() {
    let mut conn = connected();
    let ch = with_open_channel(&mut conn);
    let id = conn.channel_close(ch, 200, b("bye"), 0, 0).unwrap();
    conn.handle_frame(Frame::Method(ch, Method::ChannelCloseOk)).unwrap();
    assert_eq!(conn.is_finished(id), Some(true));
    assert_eq!(conn.channels[ch as usize].state, ChannelStatus::Closed);
}

#[test]
fn an_unexpected_reply_is_a_protocol_violation() {
    let mut conn = connected();
    let ch = with_open_channel(&mut conn);
    let r = conn.handle_frame(Frame::Method(ch, Method::QueueDeclareOk {
        queue: b("q"),
        message_count: 0,
        consumer_count: 0,
    }));
    assert_eq!(r, Err(Error::InvalidState));
    assert_eq!(conn.state, ConnectionState::Error);
}

#[test]
fn the_basic_get_outcome_maps_the_empty_case_to_its_error() {
    let mut conn = connected();
    let ch = with_open_channel(&mut conn);
    let id = conn.basic_get(ch, 0, b("q"), false).unwrap();
    assert_eq!(conn.basic_get_result(id), None);
    conn.handle_frame(Frame::Method(ch, Method::BasicGetEmpty { cluster_id: b("") })).unwrap();
    assert_eq!(conn.basic_get_result(id), Some(Err(Error::BasicGetEmpty)));
}

#[test]
fn the_start_ok_reply_survives_a_wire_round_trip() {
    let mut conn = Connection::new();
    conn.connect().unwrap();
    conn.next_frame().unwrap();
    conn.handle_frame(Frame::Method(0, Method::ConnectionStart {
        version_major: 0,
        version_minor: 9,
        server_properties: vec![],
        mechanisms: b("PLAIN"),
        locales: b("en_US"),
    }))
    .unwrap();
    let start_ok = conn.next_frame().expect("the start-ok reply");
    let mut wire = Vec::new();
    encode_frame(&start_ok, &mut wire).unwrap();
    let mut buf = wire.clone();
    let decoded = amqp_core::decode::decode(&mut buf).unwrap().unwrap();
    assert_eq!(decoded, start_ok);
    match decoded {
        Frame::Method(0, Method::ConnectionStartOk { client_properties, .. }) => {
            assert_eq!(client_properties.len(), 4);
            assert_eq!(client_properties[3].key, b("capabilities"));
        },
        other => panic!("expected start-ok, got {other:?}"),
    }
}

#[test]
fn the_pump_dispatches_whole_frames_and_keeps_the_partial_tail() {
    let mut conn = connected();
    let mut rx = Vec::new();
    encode_frame(&Frame::Heartbeat(0), &mut rx).unwrap();
    encode_frame(&Frame::Heartbeat(0), &mut rx).unwrap();
    let mut partial = Vec::new();
    encode_frame(&Frame::Heartbeat(0), &mut partial).unwrap();
    rx.extend_from_slice(&partial[..3]);
    let n = process_incoming(&mut conn, &mut rx).unwrap();
    assert_eq!(n, 2);
    assert_eq!(rx, partial[..3].to_vec());
    assert_eq!(conn.state, ConnectionState::Connected);
}

#[test]
fn the_pump_reports_a_rejected_frame() {
    let mut conn = connected();
    let mut rx = Vec::new();
    encode_frame(&Frame::Heartbeat(0), &mut rx).unwrap();
    encode_frame(&Frame::Heartbeat(7), &mut rx).unwrap();
    assert_eq!(process_incoming(&mut conn, &mut rx), Err(Error::InvalidState));
    assert_eq!(conn.state, ConnectionState::Error);
}
