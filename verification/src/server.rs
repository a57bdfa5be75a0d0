use crate::game_state::Interaction;
use crate::ws_messages::{
    ClearEntitiesRequestMessage, CreateControlEntityMessage, DisconnectMessage,
    GetEntitiesRequestMessage, MessageType, MoveEntityRequestMessage, NewEntityRequestMessage,
    RawMessage, UnknownMessageError, MESSAGE_TYPE_COUNT, message_type_of,
};
use std::convert::TryFrom;
use vstd::prelude::*;

verus! {

/// What the connection does with one binary message from its client.
#[derive(Debug)]
pub enum MessageAction {
    /// Reply with the entities inside the requested rectangle.
    SendEntities(GetEntitiesRequestMessage),
    /// Pass the request on to the game loop; there is no reply.
    Forward(Interaction),
    /// Ask the game loop for a new control entity and reply with it.
    SpawnControlEntity,
}

/// Why a binary message could not be read.
#[derive(Debug)]
pub enum HandleError {
    /// The message is empty.
    UnknownMessage(UnknownMessageError),
    /// The message's length does not fit its type.
    Malformed(&'static str),
}

/// The action for the message `data`, or why there is none.
pub open spec fn action_for(data: Seq<u8>) -> Result<MessageAction, HandleError> {
    if data.len() == 0 {
        Err(HandleError::UnknownMessage(UnknownMessageError))
    } else {
        match message_type_of(data[0]) {
            MessageType::GetEntitiesRequest => match GetEntitiesRequestMessage::decode(data) {
                Ok(m) => Ok(MessageAction::SendEntities(m)),
                Err(e) => Err(HandleError::Malformed(e)),
            },
            MessageType::NewEntityRequest => match NewEntityRequestMessage::decode(data) {
                Ok(m) => Ok(MessageAction::Forward(Interaction::CreateEntity { x: m.x, y: m.y })),
                Err(e) => Err(HandleError::Malformed(e)),
            },
            MessageType::ClearEntitiesRequest => match ClearEntitiesRequestMessage::decode(data) {
                Ok(_) => Ok(MessageAction::Forward(Interaction::ClearEntities)),
                Err(e) => Err(HandleError::Malformed(e)),
            },
            MessageType::MoveEntityRequest => match MoveEntityRequestMessage::decode(data) {
                Ok(m) => Ok(
                    MessageAction::Forward(
                        Interaction::MoveEntity { x: m.x, y: m.y, id: m.entity_id },
                    ),
                ),
                Err(e) => Err(HandleError::Malformed(e)),
            },
            MessageType::CreateControlEntity => match CreateControlEntityMessage::decode(data) {
                Ok(_) => Ok(MessageAction::SpawnControlEntity),
                Err(e) => Err(HandleError::Malformed(e)),
            },
            MessageType::Disconnect => match DisconnectMessage::decode(data) {
                Ok(m) => Ok(MessageAction::Forward(Interaction::DisconnectControlEntity { id: m.id })),
                Err(e) => Err(HandleError::Malformed(e)),
            },
        }
    }
}

/// Reads one binary message from a client and decides what to do with it.
pub fn handle_message(msg: Vec<u8>) -> (r: Result<MessageAction, HandleError>)
    requires
        msg@.len() > 0 ==> msg@[0] < MESSAGE_TYPE_COUNT,
    ensures
        r == action_for(msg@),
{
    let rm = RawMessage { data: msg };
    let rm_type = match rm.get_msg_type() {
        Ok(t) => t,
        Err(e) => return Err(HandleError::UnknownMessage(e)),
    };
    match rm_type {
        MessageType::GetEntitiesRequest => match GetEntitiesRequestMessage::try_from(rm) {
            Ok(m) => Ok(MessageAction::SendEntities(m)),
            Err(e) => Err(HandleError::Malformed(e)),
        },
        MessageType::NewEntityRequest => match NewEntityRequestMessage::try_from(rm) {
            Ok(m) => Ok(MessageAction::Forward(Interaction::CreateEntity { x: m.x, y: m.y })),
            Err(e) => Err(HandleError::Malformed(e)),
        },
        MessageType::ClearEntitiesRequest => match ClearEntitiesRequestMessage::try_from(rm) {
            Ok(_) => Ok(MessageAction::Forward(Interaction::ClearEntities)),
            Err(e) => Err(HandleError::Malformed(e)),
        },
        MessageType::MoveEntityRequest => match MoveEntityRequestMessage::try_from(rm) {
            Ok(m) => Ok(
                MessageAction::Forward(Interaction::MoveEntity { x: m.x, y: m.y, id: m.entity_id }),
            ),
            Err(e) => Err(HandleError::Malformed(e)),
        },
        MessageType::CreateControlEntity => match CreateControlEntityMessage::try_from(rm) {
            Ok(_) => Ok(MessageAction::SpawnControlEntity),
            Err(e) => Err(HandleError::Malformed(e)),
        },
        MessageType::Disconnect => match DisconnectMessage::try_from(rm) {
            Ok(m) => Ok(MessageAction::Forward(Interaction::DisconnectControlEntity { id: m.id })),
            Err(e) => Err(HandleError::Malformed(e)),
        },
    }
}

/// The string stored under `key` in the top-level object of the JSON
/// document `text`; `None` where `text` is no JSON document or the entry is
/// missing or not a string.
pub uninterp spec fn json_str_field(text: Seq<char>, key: Seq<char>) -> Option<Seq<char>>;

/// Parses `text` with `serde_json::from_str` into a `serde_json::Value`,
/// indexes it with `key` and reads the entry with `Value::as_str`; the
/// result is the named `json_str_field` of the text and the key.
#[verifier::external_body]
fn json_string_field(text: &str, key: &str) -> (r: Option<String>)
    ensures
        match r {
            Some(s) => json_str_field(text@, key@) == Some(s@),
            None => json_str_field(text@, key@) is None,
        },
{
    match serde_json::from_str::<serde_json::Value>(text) {
        Ok(value) => value[key].as_str().map(|s| s.to_string()),
        Err(_) => None,
    }
}

/// The address to listen on, as the configuration `text` gives it:
/// `server_addr`, a colon, then `server_port`.
pub open spec fn config_addr(text: Seq<char>) -> Option<Seq<char>> {
    match (json_str_field(text, "server_addr"@), json_str_field(text, "server_port"@)) {
        (Some(addr), Some(port)) => Some(addr + ":"@ + port),
        _ => None,
    }
}

/// The address to listen on, from the configuration file's text; both
/// entries must be there, as strings.
pub fn load_config_addr(text: &str) -> (addr: String)
    requires
        config_addr(text@) is Some,
    ensures
        Some(addr@) == config_addr(text@),
{
    let addr = json_string_field(text, "server_addr");
    let port = json_string_field(text, "server_port");
    match (addr, port) {
        (Some(mut addr), Some(port)) => {
            addr.append(":");
            addr.append(port.as_str());
            addr
        },
        _ => {
            proof {
                assert(false);
            }
            String::new()
        },
    }
}

/// The address to listen on, or `None` where the configuration lacks it.
pub fn try_load_config_addr(text: &str) -> (addr: Option<String>)
    ensures
        match addr {
            Some(a) => config_addr(text@) == Some(a@),
            None => config_addr(text@) is None,
        },
{
    let addr = json_string_field(text, "server_addr");
    let port = json_string_field(text, "server_port");
    if addr.is_some() && port.is_some() {
        Some(load_config_addr(text))
    } else {
        None
    }
}

} // verus!
