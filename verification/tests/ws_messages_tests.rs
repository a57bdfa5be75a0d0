use game_server::game_state::Obj;
use game_server::ws_messages::{
    ClearEntitiesRequestMessage, CreateControlEntityMessage, DisconnectMessage,
    GetEntitiesRequestMessage, MessageType, MoveEntityRequestMessage, NewEntityRequestMessage,
    RawMessage, UnknownMessageError, NOT_BINARY, WRONG_LENGTH,
};
use std::convert::TryFrom;
use tungstenite::Message;

fn payload(m: Message) -> Vec<u8> {
    match m {
        Message::Binary(d) => d,
        other => panic!("not a binary message: {:?}", other),
    }
}

fn obj(id: u32, x: u32, y: u32) -> Obj {
    Obj { x, y, dx: 0, dy: 0, id }
}

#[test]
fn msg_type_of_each_byte() {
    let expected = [
        MessageType::GetEntitiesRequest,
        MessageType::NewEntityRequest,
        MessageType::ClearEntitiesRequest,
        MessageType::MoveEntityRequest,
        MessageType::CreateControlEntity,
        MessageType::Disconnect,
    ];
    for (b, t) in expected.iter().enumerate() {
        let rm = RawMessage { data: vec![b as u8, 9, 9] };
        assert_eq!(rm.get_msg_type().unwrap(), *t);
    }
}

#[test]
fn msg_type_of_empty_message_is_unknown() {
    let rm = RawMessage { data: vec![] };
    assert!(rm.get_msg_type().is_err());
    assert_eq!(UnknownMessageError.to_string(), "unknown message type");
}

#[test]
fn raw_message_from_binary_frame() {
    let rm = RawMessage::try_from(Message::Binary(vec![1, 2, 3])).unwrap();
    assert_eq!(rm.data, vec![1, 2, 3]);
}

#[test]
fn raw_message_refuses_text_frame() {
    let r = RawMessage::try_from(Message::Text("hi".to_string()));
    assert_eq!(r.unwrap_err(), NOT_BINARY);
    assert_eq!(NOT_BINARY, "Only Binary message types can be converted");
}

#[test]
fn get_entities_decodes_big_endian_fields() {
    let data = vec![0, 0, 0, 0, 1, 0, 0, 1, 0, 0, 1, 0, 0, 1, 0, 0, 0];
    let m = GetEntitiesRequestMessage::try_from(RawMessage { data }).unwrap();
    assert_eq!((m.x, m.y, m.w, m.h), (1, 256, 65536, 16777216));
}

#[test]
fn get_entities_wrong_length() {
    let r = GetEntitiesRequestMessage::try_from(RawMessage { data: vec![0; 16] });
    assert_eq!(r.unwrap_err(), WRONG_LENGTH);
    assert_eq!(WRONG_LENGTH, "RawMessage data is of the the wrong length");
}

#[test]
fn new_entity_decodes() {
    let data = vec![1, 0, 0, 0, 7, 0, 0, 1, 2, 0xff, 0xff, 0xff, 0xff];
    let m = NewEntityRequestMessage::try_from(RawMessage { data }).unwrap();
    assert_eq!((m.x, m.y, m.entity_id), (7, 258, u32::MAX));
    assert!(NewEntityRequestMessage::try_from(RawMessage { data: vec![1; 12] }).is_err());
}

#[test]
fn clear_and_control_are_one_byte() {
    assert!(ClearEntitiesRequestMessage::try_from(RawMessage { data: vec![2] }).is_ok());
    assert!(ClearEntitiesRequestMessage::try_from(RawMessage { data: vec![2, 0] }).is_err());
    assert!(CreateControlEntityMessage::try_from(RawMessage { data: vec![4] }).is_ok());
    assert!(CreateControlEntityMessage::try_from(RawMessage { data: vec![] }).is_err());
}

#[test]
fn move_entity_decodes_signed_velocity() {
    let data = vec![3, 0xff, 0xff, 0xff, 0xfe, 0, 0, 0, 5, 0, 0, 0, 9];
    let m = MoveEntityRequestMessage::try_from(RawMessage { data }).unwrap();
    assert_eq!((m.x, m.y, m.entity_id), (-2, 5, 9));
    let data = vec![3, 0x80, 0, 0, 0, 0x7f, 0xff, 0xff, 0xff, 0, 0, 0, 0];
    let m = MoveEntityRequestMessage::try_from(RawMessage { data }).unwrap();
    assert_eq!((m.x, m.y), (i32::MIN, i32::MAX));
}

#[test]
fn disconnect_decodes() {
    let m = DisconnectMessage::try_from(RawMessage { data: vec![5, 0, 0, 1, 1] }).unwrap();
    assert_eq!(m.id, 257);
    assert!(DisconnectMessage::try_from(RawMessage { data: vec![5, 0, 0, 1] }).is_err());
}

#[test]
fn entities_response_lists_objects_in_view() {
    let objs = vec![obj(1, 10, 10), obj(2, 50, 10), obj(3, 19, 19), obj(4, 20, 5)];
    assert!(GetEntitiesRequestMessage::response_fits(&objs, 10, 10, 10, 10));
    let bytes = payload(GetEntitiesRequestMessage::create_response(&objs, 10, 10, 10, 10));
    assert_eq!(
        bytes,
        vec![0, 2, 1, 0, 0, 0, 10, 0, 0, 0, 10, 0, 0, 0, 3, 0, 0, 0, 19, 0, 0, 0, 19, 0, 0, 0]
    );
}

#[test]
fn entities_response_empty() {
    let objs: Vec<Obj> = vec![];
    let bytes = payload(GetEntitiesRequestMessage::create_response(&objs, 0, 0, 5, 5));
    assert_eq!(bytes, vec![0, 0]);
}

#[test]
fn entities_response_little_endian_records() {
    let objs = vec![obj(0x01020304, 0x0a0b0c0d, 0x11121314)];
    let bytes = payload(GetEntitiesRequestMessage::create_response(&objs, 0, 0, u32::MAX, u32::MAX));
    assert_eq!(bytes.len(), 2 + 12);
    assert_eq!(bytes[1], 1);
    assert_eq!(&bytes[2..6], &[4, 3, 2, 1]);
    assert_eq!(&bytes[6..10], &[0x0d, 0x0c, 0x0b, 0x0a]);
    assert_eq!(&bytes[10..14], &[0x14, 0x13, 0x12, 0x11]);
}

#[test]
fn response_does_not_fit_on_overflowing_rectangle() {
    let objs = vec![obj(1, 10, 10)];
    assert!(!GetEntitiesRequestMessage::response_fits(&objs, 5, 0, u32::MAX, 100));
    assert!(GetEntitiesRequestMessage::response_fits(&objs, 11, 0, u32::MAX, 100));
    assert!(!GetEntitiesRequestMessage::response_fits(&objs, 0, 5, 100, u32::MAX));
}

#[test]
fn response_does_not_fit_over_255_objects() {
    let objs: Vec<Obj> = (0..256).map(|i| obj(i, 1, 1)).collect();
    assert!(!GetEntitiesRequestMessage::response_fits(&objs, 0, 0, 10, 10));
    let objs: Vec<Obj> = (0..255).map(|i| obj(i, 1, 1)).collect();
    assert!(GetEntitiesRequestMessage::response_fits(&objs, 0, 0, 10, 10));
    let bytes = payload(GetEntitiesRequestMessage::create_response(&objs, 0, 0, 10, 10));
    assert_eq!(bytes[1], 255);
    assert_eq!(bytes.len(), 2 + 12 * 255);
}

#[test]
fn control_response_layout() {
    let o = Obj { x: 300, y: 300, dx: 0, dy: 0, id: 7 };
    let bytes = payload(CreateControlEntityMessage::create_response(o));
    assert_eq!(bytes, vec![4, 7, 0, 0, 0, 44, 1, 0, 0, 44, 1, 0, 0]);
    let id = u32::from_le_bytes([bytes[1], bytes[2], bytes[3], bytes[4]]);
    let x = u32::from_le_bytes([bytes[5], bytes[6], bytes[7], bytes[8]]);
    assert_eq!((id, x), (7, 300));
}

#[test]
fn request_layout_roundtrip() {
    let mut data = vec![0u8];
    for v in [1u32, 2, 3, 4] {
        data.extend_from_slice(&v.to_be_bytes());
    }
    let m = GetEntitiesRequestMessage::try_from(RawMessage { data }).unwrap();
    assert_eq!((m.x, m.y, m.w, m.h), (1, 2, 3, 4));
    let mut data = vec![3u8];
    data.extend_from_slice(&(-100i32).to_be_bytes());
    data.extend_from_slice(&(42i32).to_be_bytes());
    data.extend_from_slice(&(77u32).to_be_bytes());
    let m = MoveEntityRequestMessage::try_from(RawMessage { data }).unwrap();
    assert_eq!((m.x, m.y, m.entity_id), (-100, 42, 77));
}

#[test]
fn reply_reads_back_through_raw_message() {
    let o = Obj { x: 1, y: 2, dx: 0, dy: 0, id: 3 };
    let rm = RawMessage::try_from(CreateControlEntityMessage::create_response(o)).unwrap();
    assert_eq!(rm.data, vec![4, 3, 0, 0, 0, 1, 0, 0, 0, 2, 0, 0, 0]);
}

#[test]
fn wider_view_keeps_listed_records_in_order() {
    let objs = vec![obj(1, 5, 5), obj(2, 15, 5), obj(3, 6, 6), obj(4, 30, 30)];
    let small = payload(GetEntitiesRequestMessage::create_response(&objs, 0, 0, 10, 10));
    let large = payload(GetEntitiesRequestMessage::create_response(&objs, 0, 0, 20, 10));
    assert_eq!((small[1], large[1]), (2, 3));
    let ids = |b: &Vec<u8>| b[2..].chunks(12).map(|r| r[0]).collect::<Vec<u8>>();
    assert_eq!(ids(&small), vec![1, 3]);
    assert_eq!(ids(&large), vec![1, 2, 3]);
}
