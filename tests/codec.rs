use bytes::{BufMut, BytesMut};
use messenger::{pack_str, unpack_string, DecodeError, Message, MessageDecoder};

fn chat_hi() -> Message {
    Message { name: "chat".to_string(), data: b"hi".to_vec() }
}

#[test]
fn pack_chat_frame() {
    let packed = chat_hi().pack();
    assert_eq!(&packed[..], &[0, 4, b'c', b'h', b'a', b't', 0, 0, 0, 2, b'h', b'i'][..]);
}

#[test]
fn decode_chat_frame_consumes_all() {
    let mut buf = chat_hi().pack();
    let msg = MessageDecoder.decode(&mut buf).unwrap().unwrap();
    assert_eq!(msg.name, "chat");
    assert_eq!(msg.data, b"hi".to_vec());
    assert_eq!(buf.len(), 0);
}

#[test]
fn decode_partial_topic_waits() {
    let mut buf = BytesMut::from(&[0u8, 4, b'c', b'h'][..]);
    let r = MessageDecoder.decode(&mut buf);
    assert!(matches!(r, Ok(None)));
    assert_eq!(&buf[..], &[0u8, 4, b'c', b'h'][..]);
}

#[test]
fn decode_byte_by_byte_matches_whole() {
    let mut stream = chat_hi().pack();
    stream.put_slice(&Message { name: "sys.alert".to_string(), data: vec![1, 2, 3] }.pack());
    let bytes = stream.to_vec();
    let mut buf = BytesMut::new();
    let mut got: Vec<(String, Vec<u8>)> = Vec::new();
    for b in bytes {
        buf.put_u8(b);
        while let Some(m) = MessageDecoder.decode(&mut buf).unwrap() {
            got.push((m.name, m.data));
        }
    }
    assert_eq!(
        got,
        vec![("chat".to_string(), b"hi".to_vec()), ("sys.alert".to_string(), vec![1, 2, 3])]
    );
    assert_eq!(buf.len(), 0);
}

#[test]
fn decode_leaves_following_bytes() {
    let mut buf = chat_hi().pack();
    buf.put_slice(&[0, 7]);
    let msg = MessageDecoder.decode(&mut buf).unwrap().unwrap();
    assert_eq!(msg.name, "chat");
    assert_eq!(&buf[..], &[0u8, 7][..]);
}

#[test]
fn decode_empty_buffer_waits() {
    let mut buf = BytesMut::new();
    assert!(matches!(MessageDecoder.decode(&mut buf), Ok(None)));
}

#[test]
fn decode_waits_for_payload() {
    let mut buf = BytesMut::from(&[0u8, 1, b'x', 0, 0, 0, 3, 9][..]);
    assert!(matches!(MessageDecoder.decode(&mut buf), Ok(None)));
    assert_eq!(buf.len(), 8);
}

#[test]
fn decode_rejects_invalid_utf8_topic() {
    let mut buf = BytesMut::from(&[0u8, 2, 0xff, 0xfe, 0, 0, 0, 1, 5, 42][..]);
    assert_eq!(MessageDecoder.decode(&mut buf).unwrap_err(), DecodeError::InvalidUtf8);
    assert_eq!(&buf[..], &[42u8][..]);
}

#[test]
fn decode_rejects_negative_length() {
    let mut buf = BytesMut::from(&[0u8, 1, b'x', 0xff, 0xff, 0xff, 0xff][..]);
    assert_eq!(MessageDecoder.decode(&mut buf).unwrap_err(), DecodeError::NegativeLength);
    assert_eq!(buf.len(), 7);
}

#[test]
fn round_trip_empty_and_unicode() {
    for (name, data) in [("", vec![]), ("héllo✓", vec![0u8; 300])] {
        let mut buf = Message { name: name.to_string(), data: data.clone() }.pack();
        let m = MessageDecoder.decode(&mut buf).unwrap().unwrap();
        assert_eq!(m.name, name);
        assert_eq!(m.data, data);
        assert!(buf.is_empty());
    }
}

#[test]
fn pack_str_layout() {
    let mut buf = BytesMut::new();
    pack_str("*sys", &mut buf);
    assert_eq!(&buf[..], &[0u8, 4, b'*', b's', b'y', b's'][..]);
}

#[test]
fn unpack_string_round_trip() {
    let mut buf = BytesMut::new();
    pack_str("topic", &mut buf);
    buf.put_slice(b"tail");
    assert_eq!(unpack_string(&buf), Some("topic".to_string()));
}

#[test]
fn unpack_string_short_input() {
    assert_eq!(unpack_string(&[]), None);
    assert_eq!(unpack_string(&[0]), None);
    assert_eq!(unpack_string(&[0, 3, b'a', b'b']), None);
}

#[test]
fn unpack_string_invalid_utf8() {
    assert_eq!(unpack_string(&[0, 1, 0xff]), None);
}

#[test]
fn round_trip_largest_topic() {
    let name = "t".repeat(0xFFFF);
    let mut buf = Message { name: name.clone(), data: b"x".to_vec() }.pack();
    assert_eq!(&buf[..2], &[0xffu8, 0xff][..]);
    assert_eq!(buf.len(), 2 + 0xFFFF + 4 + 1);
    let m = MessageDecoder.decode(&mut buf).unwrap().unwrap();
    assert_eq!(m.name, name);
    assert_eq!(m.data, b"x".to_vec());
}
