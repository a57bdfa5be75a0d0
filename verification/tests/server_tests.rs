use game_server::game_state::Interaction;
use game_server::server::{handle_message, load_config_addr, try_load_config_addr, HandleError, MessageAction};

#[test]
fn get_entities_message_asks_for_reply() {
    let mut msg = vec![0u8];
    for v in [1u32, 2, 3, 4] {
        msg.extend_from_slice(&v.to_be_bytes());
    }
    match handle_message(msg).unwrap() {
        MessageAction::SendEntities(m) => assert_eq!((m.x, m.y, m.w, m.h), (1, 2, 3, 4)),
        other => panic!("unexpected {:?}", other),
    }
}

#[test]
fn new_entity_message_forwards_creation() {
    let msg = vec![1, 0, 0, 0, 5, 0, 0, 0, 6, 0, 0, 0, 9];
    match handle_message(msg).unwrap() {
        MessageAction::Forward(Interaction::CreateEntity { x, y }) => assert_eq!((x, y), (5, 6)),
        other => panic!("unexpected {:?}", other),
    }
}

#[test]
fn clear_message_forwards_clear() {
    assert!(matches!(
        handle_message(vec![2]).unwrap(),
        MessageAction::Forward(Interaction::ClearEntities)
    ));
}

#[test]
fn move_message_forwards_velocity() {
    let msg = vec![3, 0xff, 0xff, 0xff, 0xff, 0, 0, 0, 2, 0, 0, 0, 7];
    match handle_message(msg).unwrap() {
        MessageAction::Forward(Interaction::MoveEntity { x, y, id }) => {
            assert_eq!((x, y, id), (-1, 2, 7))
        }
        other => panic!("unexpected {:?}", other),
    }
}

#[test]
fn control_message_spawns() {
    assert!(matches!(handle_message(vec![4]).unwrap(), MessageAction::SpawnControlEntity));
}

#[test]
fn disconnect_message_forwards() {
    match handle_message(vec![5, 0, 0, 0, 3]).unwrap() {
        MessageAction::Forward(Interaction::DisconnectControlEntity { id }) => assert_eq!(id, 3),
        other => panic!("unexpected {:?}", other),
    }
}

#[test]
fn empty_message_is_unknown() {
    assert!(matches!(handle_message(vec![]), Err(HandleError::UnknownMessage(_))));
}

#[test]
fn wrong_length_is_malformed() {
    assert!(matches!(handle_message(vec![2, 0]), Err(HandleError::Malformed(_))));
    assert!(matches!(handle_message(vec![0, 1, 2]), Err(HandleError::Malformed(_))));
    assert!(matches!(handle_message(vec![5]), Err(HandleError::Malformed(_))));
}

#[test]
fn config_addr_joins_address_and_port() {
    let text = r#"{"server_addr": "127.0.0.1", "server_port": "9001", "other": 3}"#;
    assert_eq!(load_config_addr(text), "127.0.0.1:9001");
    assert_eq!(try_load_config_addr(text), Some("127.0.0.1:9001".to_string()));
}

#[test]
fn config_without_port_has_no_addr() {
    assert_eq!(try_load_config_addr(r#"{"server_addr": "h"}"#), None);
    assert_eq!(try_load_config_addr(r#"{"server_addr": "h", "server_port": 80}"#), None);
    assert_eq!(try_load_config_addr("not json"), None);
}
