//! Frame codec behavior on concrete wire bytes: round trips, exact
//! encodings, fragmented streams, and rejected inputs.

use amqp_core::frame::{
    BasicProperties, ContentHeader, FieldValue, Frame, Method, TableEntry,
};
use amqp_core::decode::decode;
use amqp_core::encode::encode_frame;
use amqp_core::Error;

fn b(s: &str) -> Vec<u8> {
    s.as_bytes().to_vec()
}

fn encode(f: &Frame) -> Vec<u8> {
    let mut out = Vec::new();
    encode_frame(f, &mut out).expect("frame must serialize");
    out
}

#[test]
fn protocol_header_is_the_eight_byte_greeting() {
    assert_eq!(encode(&Frame::ProtocolHeader), b"AMQP\x00\x00\x09\x01".to_vec());
}

#[test]
fn tune_ok_has_exact_wire_bytes() {
    let f = Frame::Method(0, Method::ConnectionTuneOk {
        channel_max: 2047,
        frame_max: 131072,
        heartbeat: 60,
    });
    let bytes = encode(&f);
    assert_eq!(
        bytes,
        vec![
            1, 0, 0, 0, 0, 0, 12, 0, 10, 0, 31, 7, 255, 0, 2, 0, 0, 0, 60, 0xCE
        ]
    );
}

#[test]
fn heartbeat_has_exact_wire_bytes() {
    assert_eq!(encode(&Frame::Heartbeat(0)), vec![8, 0, 0, 0, 0, 0, 0, 0xCE]);
}

#[test]
fn method_frame_round_trips() {
    let f = Frame::Method(3, Method::QueueDeclare {
        ticket: 0,
        queue: b("orders"),
        passive: false,
        durable: true,
        exclusive: false,
        auto_delete: true,
        nowait: false,
        arguments: vec![
            TableEntry { key: b("x-priority"), value: FieldValue::LongInt(-7) },
            TableEntry { key: b("note"), value: FieldValue::LongString(b("hi")) },
            TableEntry { key: b("flag"), value: FieldValue::Boolean(true) },
        ],
    });
    let mut buf = encode(&f);
    let got = decode(&mut buf).unwrap().unwrap();
    assert_eq!(got, f);
    assert!(buf.is_empty());
}

#[test]
fn every_connection_method_round_trips() {
    let frames = vec![
        Frame::Method(0, Method::ConnectionStart {
            version_major: 0,
            version_minor: 9,
            server_properties: vec![TableEntry {
                key: b("product"),
                value: FieldValue::LongString(b("broker")),
            }],
            mechanisms: b("PLAIN AMQPLAIN"),
            locales: b("en_US"),
        }),
        Frame::Method(0, Method::ConnectionTune {
            channel_max: 2047,
            frame_max: 131072,
            heartbeat: 60,
        }),
        Frame::Method(0, Method::ConnectionOpen {
            virtual_host: b("/"),
            capabilities: b(""),
            insist: false,
        }),
        Frame::Method(0, Method::ConnectionOpenOk { known_hosts: b("") }),
        Frame::Method(0, Method::ConnectionClose {
            reply_code: 320,
            reply_text: b("shutdown"),
            class_id: 0,
            method_id: 0,
        }),
        Frame::Method(0, Method::ConnectionCloseOk),
    ];
    for f in frames {
        let mut buf = encode(&f);
        assert_eq!(decode(&mut buf).unwrap().unwrap(), f);
        assert!(buf.is_empty());
    }
}

#[test]
fn basic_class_methods_round_trip() {
    let frames = vec![
        Frame::Method(1, Method::BasicPublish {
            ticket: 0,
            exchange: b(""),
            routing_key: b("k"),
            mandatory: true,
            immediate: false,
        }),
        Frame::Method(1, Method::BasicDeliver {
            consumer_tag: b("c"),
            delivery_tag: 42,
            redelivered: true,
            exchange: b("amq.direct"),
            routing_key: b("k"),
        }),
        Frame::Method(1, Method::BasicGetOk {
            delivery_tag: 9,
            redelivered: false,
            exchange: b("e"),
            routing_key: b("r"),
            message_count: 3,
        }),
        Frame::Method(1, Method::BasicAck { delivery_tag: 7, multiple: true }),
        Frame::Method(1, Method::BasicNack { delivery_tag: 8, multiple: false, requeue: true }),
        Frame::Method(1, Method::BasicConsume {
            ticket: 0,
            queue: b("q"),
            consumer_tag: b("c"),
            no_local: false,
            no_ack: true,
            exclusive: false,
            nowait: false,
            arguments: vec![],
        }),
        Frame::Method(1, Method::ConfirmSelect { nowait: false }),
    ];
    for f in frames {
        let mut buf = encode(&f);
        assert_eq!(decode(&mut buf).unwrap().unwrap(), f);
        assert!(buf.is_empty());
    }
}

#[test]
fn header_frame_with_properties_round_trips() {
    let props = BasicProperties {
        content_type: Some(b("text/plain")),
        delivery_mode: Some(2),
        priority: Some(5),
        correlation_id: Some(b("abc-1")),
        timestamp: Some(1_700_000_000),
        headers: Some(vec![TableEntry { key: b("x"), value: FieldValue::Boolean(false) }]),
        ..BasicProperties::default()
    };
    let f = Frame::Header(1, 60, ContentHeader { body_size: 5, properties: props });
    let mut buf = encode(&f);
    assert_eq!(decode(&mut buf).unwrap().unwrap(), f);
    assert!(buf.is_empty());
}

#[test]
fn body_frame_round_trips() {
    let f = Frame::Body(2, b("hello world"));
    let mut buf = encode(&f);
    assert_eq!(decode(&mut buf).unwrap().unwrap(), f);
    assert!(buf.is_empty());
}

#[test]
fn incomplete_bytes_leave_the_buffer_untouched() {
    let full = encode(&Frame::Heartbeat(0));
    let mut partial = full[..5].to_vec();
    let before = partial.clone();
    assert_eq!(decode(&mut partial).unwrap(), None);
    assert_eq!(partial, before);
}

#[test]
fn an_unknown_frame_type_is_malformed() {
    let mut buf = vec![9, 0, 0, 0, 0, 0, 0, 0xCE];
    assert_eq!(decode(&mut buf), Err(Error::ParseError));
}

#[test]
fn a_wrong_end_octet_is_malformed() {
    let mut bytes = encode(&Frame::Heartbeat(0));
    let last = bytes.len() - 1;
    bytes[last] = 0;
    assert_eq!(decode(&mut bytes), Err(Error::ParseError));
}

#[test]
fn an_overlong_short_string_is_rejected_unchanged() {
    let f = Frame::Method(1, Method::QueuePurge {
        ticket: 0,
        queue: vec![b'q'; 256],
        nowait: false,
    });
    let mut out = vec![1, 2, 3];
    assert_eq!(encode_frame(&f, &mut out), Err(Error::SerializeError));
    assert_eq!(out, vec![1, 2, 3]);
}

/// Decoding a stream is insensitive to how it was cut into chunks: every
/// fragmentation of the same bytes yields the same frames in the same order.
#[test]
fn fragmentation_does_not_change_the_decoded_frames() {
    let frames = vec![
        Frame::Method(1, Method::BasicAck { delivery_tag: 1, multiple: false }),
        Frame::Header(1, 60, ContentHeader {
            body_size: 3,
            properties: BasicProperties::default(),
        }),
        Frame::Body(1, b("abc")),
        Frame::Heartbeat(0),
    ];
    let mut stream = Vec::new();
    for f in &frames {
        encode_frame(f, &mut stream).unwrap();
    }
    for chunk_size in [1usize, 2, 3, 7, 11, stream.len()] {
        let mut buf: Vec<u8> = Vec::new();
        let mut got: Vec<Frame> = Vec::new();
        for chunk in stream.chunks(chunk_size) {
            buf.extend_from_slice(chunk);
            while let Some(f) = decode(&mut buf).unwrap() {
                got.push(f);
            }
        }
        assert_eq!(got, frames, "chunk size {chunk_size}");
        assert!(buf.is_empty());
    }
}

#[test]
fn exchange_unbind_ok_uses_its_own_method_id() {
    let bytes = encode(&Frame::Method(1, Method::ExchangeUnbindOk));
    assert_eq!(bytes, vec![1, 0, 1, 0, 0, 0, 4, 0, 40, 0, 51, 0xCE]);
    let bind_ok = encode(&Frame::Method(1, Method::ExchangeBindOk));
    assert_eq!(bind_ok, vec![1, 0, 1, 0, 0, 0, 4, 0, 40, 0, 31, 0xCE]);
}
