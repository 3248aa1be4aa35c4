//! The datagrams that the watcher sends to the receiver.

use vstd::prelude::*;
use vstd::string::*;
use vstd::utf8::*;

verus! {

/// A message from the watcher.
#[derive(Clone, Copy, Debug, PartialEq, Eq)]
pub enum UdpMsg {
    /// The watched area has changed.
    Notification,
    /// The watcher is still there.
    Heartbeat,
}

/// What a datagram turns out to be.
#[derive(Clone, Debug)]
pub enum Received {
    /// A message.
    Message(UdpMsg),
    /// Something else, with its text.
    Unknown(String),
}

/// The text of a message.
pub open spec fn wire_text(msg: UdpMsg) -> Seq<char> {
    match msg {
        UdpMsg::Notification => "MSG"@,
        UdpMsg::Heartbeat => "HB"@,
    }
}

/// The text of a datagram; empty where it is not UTF-8.
pub open spec fn datagram_text(bytes: Seq<u8>) -> Seq<char> {
    if valid_utf8(bytes) {
        decode_utf8(bytes)
    } else {
        Seq::empty()
    }
}

/// The message that a datagram is, if it is one.
pub open spec fn message_of(bytes: Seq<u8>) -> Option<UdpMsg> {
    let text = datagram_text(bytes);
    if text == wire_text(UdpMsg::Notification) {
        Some(UdpMsg::Notification)
    } else if text == wire_text(UdpMsg::Heartbeat) {
        Some(UdpMsg::Heartbeat)
    } else {
        None
    }
}

/// Reads bytes as text, with `std::str::from_utf8`.
///
/// Not proved: that there is a text exactly if the bytes are UTF-8, and that
/// the bytes are then its encoding.
#[verifier::external_body]
fn utf8_text(bytes: &[u8]) -> (text: Option<&str>)
    ensures
        text is Some <==> valid_utf8(bytes@),
        text matches Some(t) ==> encode_utf8(t@) == bytes@,
{
    std::str::from_utf8(bytes).ok()
}

/// Bytes have a text exactly if they are the encoding of it.
proof fn lemma_text_of_bytes(bytes: Seq<u8>, chars: Seq<char>)
    ensures
        bytes == encode_utf8(chars) <==> valid_utf8(bytes) && decode_utf8(bytes) == chars,
{
    encode_utf8_valid_utf8(chars);
    encode_utf8_decode_utf8(chars);
    if valid_utf8(bytes) {
        decode_utf8_encode_utf8(bytes);
    }
}

/// The bytes of the messages.
proof fn lemma_wire_bytes()
    ensures
        encode_utf8("MSG"@) == seq![0x4Du8, 0x53u8, 0x47u8],
        encode_utf8("HB"@) == seq![0x48u8, 0x42u8],
        "MSG"@.len() == 3,
        "HB"@.len() == 2,
{
    reveal_strlit("MSG");
    reveal_strlit("HB");
    is_ascii_chars_encode_utf8("MSG"@);
    is_ascii_chars_encode_utf8("HB"@);
    assert(encode_utf8("MSG"@) =~= seq![0x4Du8, 0x53u8, 0x47u8]);
    assert(encode_utf8("HB"@) =~= seq![0x48u8, 0x42u8]);
}

/// The bytes to send for a message.
pub fn encode(msg: UdpMsg) -> (bytes: Vec<u8>)
    ensures
        bytes@ == encode_utf8(wire_text(msg)),
{
    proof {
        lemma_wire_bytes();
    }
    match msg {
        UdpMsg::Notification => {
            let bytes: Vec<u8> = vec![0x4Du8, 0x53u8, 0x47u8];
            assert(bytes@ =~= seq![0x4Du8, 0x53u8, 0x47u8]);
            bytes
        },
        UdpMsg::Heartbeat => {
            let bytes: Vec<u8> = vec![0x48u8, 0x42u8];
            assert(bytes@ =~= seq![0x48u8, 0x42u8]);
            bytes
        },
    }
}

/// What a datagram is: a message where its text is that of one.
pub fn decode(bytes: &[u8]) -> (r: Received)
    ensures
        match r {
            Received::Message(msg) => message_of(bytes@) == Some(msg),
            Received::Unknown(text) => message_of(bytes@) is None && text@ == datagram_text(
                bytes@,
            ),
        },
{
    proof {
        lemma_wire_bytes();
        lemma_text_of_bytes(bytes@, "MSG"@);
        lemma_text_of_bytes(bytes@, "HB"@);
    }
    if bytes.len() == 3 && bytes[0] == 0x4D && bytes[1] == 0x53 && bytes[2] == 0x47 {
        assert(bytes@ =~= seq![0x4Du8, 0x53u8, 0x47u8]);
        return Received::Message(UdpMsg::Notification);
    }
    if bytes.len() == 2 && bytes[0] == 0x48 && bytes[1] == 0x42 {
        assert(bytes@ =~= seq![0x48u8, 0x42u8]);
        return Received::Message(UdpMsg::Heartbeat);
    }
    match utf8_text(bytes) {
        Some(text) => {
            proof {
                lemma_text_of_bytes(bytes@, text@);
            }
            Received::Unknown(text.to_owned())
        },
        None => Received::Unknown(String::new()),
    }
}

/// What the watcher sends is what the receiver reads, and the receiver reads a
/// message out of nothing else.
pub proof fn law_wire_round_trip(msg: UdpMsg, bytes: Seq<u8>)
    ensures
        message_of(encode_utf8(wire_text(msg))) == Some(msg),
        message_of(bytes) == Some(msg) ==> bytes == encode_utf8(wire_text(msg)),
{
    lemma_wire_bytes();
    lemma_text_of_bytes(bytes, wire_text(msg));
    lemma_text_of_bytes(encode_utf8(wire_text(msg)), wire_text(msg));
}

/// The messages on the wire: three bytes for a notification, two for a heartbeat.
pub proof fn law_bytes_on_the_wire()
    ensures
        encode_utf8(wire_text(UdpMsg::Notification)) == seq![0x4Du8, 0x53u8, 0x47u8],
        encode_utf8(wire_text(UdpMsg::Heartbeat)) == seq![0x48u8, 0x42u8],
        message_of(seq![0x4Du8, 0x53u8, 0x47u8]) == Some(UdpMsg::Notification),
        message_of(seq![0x48u8, 0x42u8]) == Some(UdpMsg::Heartbeat),
{
    lemma_wire_bytes();
    law_wire_round_trip(UdpMsg::Notification, seq![]);
    law_wire_round_trip(UdpMsg::Heartbeat, seq![]);
}

/// Any other bytes are no message.
pub proof fn law_other_bytes_are_no_message(bytes: Seq<u8>)
    requires
        bytes != seq![0x4Du8, 0x53u8, 0x47u8],
        bytes != seq![0x48u8, 0x42u8],
    ensures
        message_of(bytes) is None,
{
    lemma_wire_bytes();
    law_wire_round_trip(UdpMsg::Notification, bytes);
    law_wire_round_trip(UdpMsg::Heartbeat, bytes);
}

/// The text of a datagram loses nothing: encoded again it is the datagram. What
/// is not UTF-8 has no text.
pub proof fn law_text_of_a_datagram(bytes: Seq<u8>)
    ensures
        valid_utf8(bytes) ==> encode_utf8(datagram_text(bytes)) == bytes,
        !valid_utf8(bytes) ==> datagram_text(bytes).len() == 0,
{
    if valid_utf8(bytes) {
        decode_utf8_encode_utf8(bytes);
    }
}

} // verus!
