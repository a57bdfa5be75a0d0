use crate::bytes::{be_u32_at, read_be_u32};
use crate::ws_frame::{binary_message, binary_payload};
use std::convert::TryFrom;
use tungstenite::Message;
use vstd::prelude::*;

verus! {

/// The error of a message whose type cannot be read.
#[derive(Debug, Clone, Copy)]
pub struct UnknownMessageError;

impl UnknownMessageError {
    /// The text that describes this error.
    pub fn to_string(&self) -> (s: String)
        ensures
            s@ == "unknown message type"@,
    {
        String::from_str("unknown message type")
    }
}

/// The kinds of message of the first protocol, by their type byte.
#[derive(Debug, Clone, Copy, PartialEq, Eq, Structural)]
pub enum MessageType {
    GetEntitiesRequest,
    NewEntityRequest,
}

/// How many message types there are; type bytes run from 0 below it.
pub const MESSAGE_TYPE_COUNT: u8 = 2;

/// The message type that the type byte `b` selects.
pub open spec fn message_type_of(b: u8) -> MessageType
    recommends
        b < MESSAGE_TYPE_COUNT,
{
    if b == 0 {
        MessageType::GetEntitiesRequest
    } else {
        MessageType::NewEntityRequest
    }
}

/// The error of a message whose length does not fit its type.
pub const WRONG_LENGTH: &'static str = "RawMessage data is of the the wrong length";

/// The error of a WebSocket message that carries no binary payload.
pub const NOT_BINARY: &'static str = "Only Binary message types can be converted";

/// The bytes of one client message: the type byte, then the fields.
#[derive(Debug)]
pub struct RawMessage {
    pub data: Vec<u8>,
}

impl RawMessage {
    /// The message type named by the first byte; an empty message has none.
    #[allow(non_snake_case)]
    pub fn getMsgType(&self) -> (r: Result<MessageType, UnknownMessageError>)
        requires
            self.data@.len() > 0 ==> self.data@[0] < MESSAGE_TYPE_COUNT,
        ensures
            r == if self.data@.len() == 0 {
                Err(UnknownMessageError)
            } else {
                Ok::<MessageType, UnknownMessageError>(message_type_of(self.data@[0]))
            },
    {
        if self.data.len() == 0 {
            Err(UnknownMessageError)
        } else if self.data[0] == 0 {
            Ok(MessageType::GetEntitiesRequest)
        } else {
            Ok(MessageType::NewEntityRequest)
        }
    }
}

impl TryFrom<Message> for RawMessage {
    type Error = &'static str;

    /// The payload of a binary WebSocket message; other kinds are refused.
    fn try_from(value: Message) -> (r: Result<Self, Self::Error>)
        ensures
            match r {
                Ok(rm) => value == binary_message(rm.data@) && forall|e: Seq<u8>|
                    value == binary_message(e) ==> rm.data@ == e,
                Err(e) => e == NOT_BINARY && forall|d: Seq<u8>| value != binary_message(d),
            },
    {
        match binary_payload(value) {
            Some(data) => Ok(RawMessage { data }),
            None => Err(NOT_BINARY),
        }
    }
}

impl vstd::std_specs::convert::TryFromSpecImpl<Message> for RawMessage {
    /// The payload is a vector, which no spec value pins down, so the
    /// general law is not claimed; `try_from` states its result itself.
    open spec fn obeys_try_from_spec() -> bool {
        false
    }

    open spec fn try_from_spec(v: Message) -> Result<Self, Self::Error> {
        Err(NOT_BINARY)
    }
}

/// A request for the entities inside a rectangle.
#[derive(Debug, Clone, Copy)]
pub struct GetEntitiesRequestMessage {
    pub x: u32,  // bytes 1 to 4
    pub y: u32,  // bytes 5 to 8
    pub w: u32,  // bytes 9 to 12
    pub h: u32,  // bytes 13 to 16
}

impl GetEntitiesRequestMessage {
    /// A request of this kind is 17 bytes long.
    pub open spec fn decode(data: Seq<u8>) -> Result<Self, &'static str> {
        if data.len() == 17 {
            Ok(
                GetEntitiesRequestMessage {
                    x: be_u32_at(data, 1),
                    y: be_u32_at(data, 5),
                    w: be_u32_at(data, 9),
                    h: be_u32_at(data, 13),
                },
            )
        } else {
            Err(WRONG_LENGTH)
        }
    }
}

impl TryFrom<RawMessage> for GetEntitiesRequestMessage {
    type Error = &'static str;

    fn try_from(rm: RawMessage) -> (r: Result<Self, Self::Error>)
        ensures
            r == Self::decode(rm.data@),
    {
        if rm.data.len() != 17 {
            Err(WRONG_LENGTH)
        } else {
            let x = read_be_u32(&rm.data, 1);
            let y = read_be_u32(&rm.data, 5);
            let w = read_be_u32(&rm.data, 9);
            let h = read_be_u32(&rm.data, 13);
            Ok(GetEntitiesRequestMessage { x, y, w, h })
        }
    }
}

impl vstd::std_specs::convert::TryFromSpecImpl<RawMessage> for GetEntitiesRequestMessage {
    open spec fn obeys_try_from_spec() -> bool {
        true
    }

    open spec fn try_from_spec(v: RawMessage) -> Result<Self, Self::Error> {
        Self::decode(v.data@)
    }
}

/// A request to create an entity of a given kind.
#[derive(Debug, Clone, Copy)]
pub struct NewEntityRequestMessage {
    pub x: u32,  // bytes 1 to 4
    pub y: u32,  // bytes 5 to 8
    pub entity_id: u8,  // byte 9
}

impl NewEntityRequestMessage {
    /// A request of this kind is 10 bytes long.
    pub open spec fn decode(data: Seq<u8>) -> Result<Self, &'static str> {
        if data.len() == 10 {
            Ok(
                NewEntityRequestMessage {
                    x: be_u32_at(data, 1),
                    y: be_u32_at(data, 5),
                    entity_id: data[9],
                },
            )
        } else {
            Err(WRONG_LENGTH)
        }
    }
}

impl TryFrom<RawMessage> for NewEntityRequestMessage {
    type Error = &'static str;

    fn try_from(rm: RawMessage) -> (r: Result<Self, Self::Error>)
        ensures
            r == Self::decode(rm.data@),
    {
        if rm.data.len() != 10 {
            Err(WRONG_LENGTH)
        } else {
            let x = read_be_u32(&rm.data, 1);
            let y = read_be_u32(&rm.data, 5);
            let entity_id = rm.data[9];
            Ok(NewEntityRequestMessage { x, y, entity_id })
        }
    }
}

impl vstd::std_specs::convert::TryFromSpecImpl<RawMessage> for NewEntityRequestMessage {
    open spec fn obeys_try_from_spec() -> bool {
        true
    }

    open spec fn try_from_spec(v: RawMessage) -> Result<Self, Self::Error> {
        Self::decode(v.data@)
    }
}

/// A rectangle request is accepted exactly when it is 17 bytes long, any
/// other length is refused as wrong, and its fields are bytes 1 to 16 read
/// as four big-endian numbers.
pub proof fn lemma_get_entities_decoding(data: Seq<u8>)
    ensures
        GetEntitiesRequestMessage::decode(data) is Ok <==> data.len() == 17,
        data.len() != 17 ==> GetEntitiesRequestMessage::decode(data) == Err::<GetEntitiesRequestMessage, &'static str>(WRONG_LENGTH),
        match GetEntitiesRequestMessage::decode(data) {
            Ok(m) => m.x == data[1] * 0x100_0000 + data[2] * 0x1_0000 + data[3] * 0x100 + data[4] && m.y == data[5] * 0x100_0000 + data[6] * 0x1_0000 + data[7] * 0x100 + data[8] && m.w == data[9] * 0x100_0000 + data[10] * 0x1_0000 + data[11] * 0x100 + data[12] && m.h == data[13] * 0x100_0000 + data[14] * 0x1_0000 + data[15] * 0x100 + data[16],
            Err(_) => true,
        },
{
}

/// A creation request is accepted exactly when it is 10 bytes long; its
/// coordinates are bytes 1 to 8 read big-endian and its kind is byte 9.
pub proof fn lemma_new_entity_decoding(data: Seq<u8>)
    ensures
        NewEntityRequestMessage::decode(data) is Ok <==> data.len() == 10,
        data.len() != 10 ==> NewEntityRequestMessage::decode(data) == Err::<NewEntityRequestMessage, &'static str>(WRONG_LENGTH),
        match NewEntityRequestMessage::decode(data) {
            Ok(m) => m.x == data[1] * 0x100_0000 + data[2] * 0x1_0000 + data[3] * 0x100 + data[4] && m.y == data[5] * 0x100_0000 + data[6] * 0x1_0000 + data[7] * 0x100 + data[8] && m.entity_id == data[9],
            Err(_) => true,
        },
{
}

} // verus!
