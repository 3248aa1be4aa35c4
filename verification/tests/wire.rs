use screen_watch::wire::{decode, encode, Received, UdpMsg};

fn text_of_unknown(bytes: &[u8]) -> String {
    match decode(bytes) {
        Received::Unknown(text) => text,
        Received::Message(msg) => panic!("{:?} is the message {:?}", bytes, msg),
    }
}

#[test]
fn messages_have_their_bytes() {
    assert_eq!(encode(UdpMsg::Notification), b"MSG".to_vec());
    assert_eq!(encode(UdpMsg::Heartbeat), b"HB".to_vec());
}

#[test]
fn messages_are_read_back() {
    for msg in [UdpMsg::Notification, UdpMsg::Heartbeat] {
        assert!(matches!(decode(&encode(msg)), Received::Message(m) if m == msg));
    }
}

#[test]
fn other_datagrams_are_unknown() {
    assert_eq!(text_of_unknown(b""), "");
    assert_eq!(text_of_unknown(b"MS"), "MS");
    assert_eq!(text_of_unknown(b"MSG\n"), "MSG\n");
    assert_eq!(text_of_unknown(b"msg"), "msg");
    assert_eq!(text_of_unknown(b"HBHB"), "HBHB");
    assert_eq!(text_of_unknown("消息".as_bytes()), "消息");
}

#[test]
fn bytes_that_are_no_text_have_none() {
    assert_eq!(text_of_unknown(&[0xFF, 0xFE]), "");
    assert_eq!(text_of_unknown(&[b'M', b'S', b'G', 0x80]), "");
    assert_eq!(text_of_unknown(&[0xED, 0xA0, 0x80]), "");
    assert_eq!(text_of_unknown(&[0xC0, 0x80]), "");
}
