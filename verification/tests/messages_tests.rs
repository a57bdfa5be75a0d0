use game_server::messages::{
    GetEntitiesRequestMessage, MessageType, NewEntityRequestMessage, RawMessage, NOT_BINARY,
    WRONG_LENGTH,
};
use std::convert::TryFrom;
use tungstenite::Message;

#[test]
fn first_protocol_msg_types() {
    assert_eq!(RawMessage { data: vec![0] }.getMsgType().unwrap(), MessageType::GetEntitiesRequest);
    assert_eq!(RawMessage { data: vec![1, 5] }.getMsgType().unwrap(), MessageType::NewEntityRequest);
    let e = RawMessage { data: vec![] }.getMsgType().unwrap_err();
    assert_eq!(e.to_string(), "unknown message type");
}

#[test]
fn first_protocol_raw_from_frames() {
    assert_eq!(RawMessage::try_from(Message::Binary(vec![4])).unwrap().data, vec![4]);
    assert_eq!(RawMessage::try_from(Message::Ping(vec![4])).unwrap_err(), NOT_BINARY);
}

#[test]
fn first_protocol_get_entities() {
    let mut data = vec![0u8];
    for v in [9u32, 8, 7, 6] {
        data.extend_from_slice(&v.to_be_bytes());
    }
    let m = GetEntitiesRequestMessage::try_from(RawMessage { data }).unwrap();
    assert_eq!((m.x, m.y, m.w, m.h), (9, 8, 7, 6));
    let r = GetEntitiesRequestMessage::try_from(RawMessage { data: vec![0; 18] });
    assert_eq!(r.unwrap_err(), WRONG_LENGTH);
}

#[test]
fn first_protocol_new_entity_has_byte_kind() {
    let data = vec![1, 0, 0, 0, 3, 0, 0, 0, 4, 200];
    let m = NewEntityRequestMessage::try_from(RawMessage { data }).unwrap();
    assert_eq!((m.x, m.y, m.entity_id), (3, 4, 200));
    assert!(NewEntityRequestMessage::try_from(RawMessage { data: vec![1; 13] }).is_err());
}
