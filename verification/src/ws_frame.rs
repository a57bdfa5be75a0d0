use tungstenite::Message;
use vstd::prelude::*;

verus! {

/// A WebSocket message of `tungstenite`, carried through unchanged.
#[verifier::external_type_specification]
#[verifier::external_body]
pub struct ExMessage(Message);

/// The binary WebSocket message whose payload is `data`; messages are told
/// apart by kind and payload, as `Message`'s own `==` does.
pub uninterp spec fn binary_message(data: Seq<u8>) -> Message;

/// Builds `tungstenite::Message::Binary(data)`; the result is the binary
/// message with that payload.
#[verifier::external_body]
pub(crate) fn to_binary_message(data: Vec<u8>) -> (m: Message)
    ensures
        m == binary_message(data@),
{
    Message::Binary(data)
}

/// Takes the payload out of a `tungstenite::Message::Binary`; any other
/// kind of message gives `None`, and is no binary message at all. A binary
/// message has one payload, so the one handed back is the only payload
/// that names the message.
#[verifier::external_body]
pub(crate) fn binary_payload(m: Message) -> (data: Option<Vec<u8>>)
    ensures
        match data {
            Some(d) => m == binary_message(d@) && forall|e: Seq<u8>|
                m == binary_message(e) ==> e == d@,
            None => forall|d: Seq<u8>| m != binary_message(d),
        },
{
    match m {
        Message::Binary(d) => Some(d),
        _ => None,
    }
}

} // verus!
