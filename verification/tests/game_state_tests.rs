use game_server::game_state::{GameState, Interaction, Obj};
use std::sync::mpsc;

fn sorted(state: &GameState) -> Vec<(u32, u32, u32, i32, i32)> {
    let mut v: Vec<_> = state.objects().iter().map(|o| (o.id, o.x, o.y, o.dx, o.dy)).collect();
    v.sort();
    v
}

#[test]
fn create_assigns_consecutive_ids() {
    let mut s = GameState::new();
    assert!(s.apply(&Interaction::CreateEntity { x: 1, y: 2 }).is_none());
    assert!(s.apply(&Interaction::CreateEntity { x: 3, y: 4 }).is_none());
    assert_eq!(s.next_id(), 2);
    assert_eq!(sorted(&s), vec![(0, 1, 2, 0, 0), (1, 3, 4, 0, 0)]);
}

#[test]
fn clear_empties_and_restarts_ids() {
    let mut s = GameState::new();
    s.apply(&Interaction::CreateEntity { x: 1, y: 2 });
    s.apply(&Interaction::ClearEntities);
    assert!(s.objects().is_empty());
    assert_eq!(s.next_id(), 0);
    s.apply(&Interaction::CreateEntity { x: 5, y: 5 });
    assert_eq!(sorted(&s), vec![(0, 5, 5, 0, 0)]);
}

#[test]
fn move_sets_velocity_of_existing_only() {
    let mut s = GameState::new();
    s.apply(&Interaction::CreateEntity { x: 1, y: 2 });
    s.apply(&Interaction::MoveEntity { x: -3, y: 4, id: 0 });
    s.apply(&Interaction::MoveEntity { x: 9, y: 9, id: 42 });
    assert_eq!(sorted(&s), vec![(0, 1, 2, -3, 4)]);
}

#[test]
fn control_entity_reply_matches_world() {
    let (tx, _rx) = mpsc::channel::<Obj>();
    let mut s = GameState::new();
    s.apply(&Interaction::CreateEntity { x: 1, y: 2 });
    let reply = s.apply(&Interaction::CreateControlEntity { tx }).unwrap();
    assert_eq!((reply.id, reply.x, reply.y, reply.dx, reply.dy), (1, 300, 300, 0, 0));
    assert!(sorted(&s).contains(&(1, 300, 300, 0, 0)));
}

#[test]
fn disconnect_removes_entity() {
    let mut s = GameState::new();
    s.apply(&Interaction::CreateEntity { x: 1, y: 2 });
    s.apply(&Interaction::CreateEntity { x: 3, y: 4 });
    s.apply(&Interaction::DisconnectControlEntity { id: 0 });
    s.apply(&Interaction::DisconnectControlEntity { id: 17 });
    assert_eq!(sorted(&s), vec![(1, 3, 4, 0, 0)]);
    assert_eq!(s.next_id(), 2);
}

#[test]
fn ids_are_fresh_after_disconnect() {
    let mut s = GameState::new();
    s.apply(&Interaction::CreateEntity { x: 0, y: 0 });
    s.apply(&Interaction::CreateEntity { x: 0, y: 0 });
    s.apply(&Interaction::DisconnectControlEntity { id: 1 });
    s.apply(&Interaction::CreateEntity { x: 8, y: 8 });
    assert_eq!(sorted(&s), vec![(0, 0, 0, 0, 0), (2, 8, 8, 0, 0)]);
}

#[test]
fn moving_object_is_displaced() {
    let mut s = GameState::new();
    s.apply(&Interaction::CreateEntity { x: 100, y: 100 });
    s.apply(&Interaction::MoveEntity { x: 1, y: -1, id: 0 });
    s.advance_object(0, 20, -30, 7);
    assert_eq!(sorted(&s), vec![(0, 120, 70, 1, -1)]);
}

#[test]
fn moving_object_stops_at_zero() {
    let mut s = GameState::new();
    s.apply(&Interaction::CreateEntity { x: 10, y: 10 });
    s.apply(&Interaction::MoveEntity { x: -1, y: 0, id: 0 });
    s.advance_object(0, -50, -11, 7);
    assert_eq!(sorted(&s), vec![(0, 0, 0, -1, 0)]);
}

#[test]
fn resting_object_drifts_along_x() {
    let mut s = GameState::new();
    s.apply(&Interaction::CreateEntity { x: 10, y: 10 });
    s.advance_object(0, 50, 50, 3);
    assert_eq!(sorted(&s), vec![(0, 13, 10, 0, 0)]);
}

#[test]
fn advancing_absent_object_changes_nothing() {
    let mut s = GameState::new();
    s.apply(&Interaction::CreateEntity { x: 10, y: 10 });
    s.advance_object(5, 50, 50, 3);
    assert_eq!(sorted(&s), vec![(0, 10, 10, 0, 0)]);
}

#[test]
fn large_coordinate_reads_as_negative_when_moving() {
    let mut s = GameState::new();
    s.apply(&Interaction::CreateEntity { x: 0x8000_0000, y: 5 });
    s.apply(&Interaction::MoveEntity { x: 1, y: 1, id: 0 });
    s.advance_object(0, 10, 0, 0);
    assert_eq!(sorted(&s), vec![(0, 0, 5, 1, 1)]);
}

#[test]
fn snapshot_holds_each_object_once() {
    let mut s = GameState::new();
    for i in 0..50 {
        s.apply(&Interaction::CreateEntity { x: i, y: 2 * i });
    }
    let objs = s.objects();
    assert_eq!(objs.len(), 50);
    let mut ids: Vec<u32> = objs.iter().map(|o| o.id).collect();
    ids.sort();
    assert_eq!(ids, (0..50).collect::<Vec<u32>>());
    for o in objs {
        assert_eq!((o.x, o.y), (o.id, 2 * o.id));
    }
}

#[test]
fn clear_then_creations_numbers_from_zero_in_order() {
    let (tx, _rx) = mpsc::channel::<Obj>();
    let mut s = GameState::new();
    s.apply(&Interaction::CreateEntity { x: 9, y: 9 });
    s.apply(&Interaction::CreateEntity { x: 9, y: 9 });
    s.apply(&Interaction::ClearEntities);
    s.apply(&Interaction::CreateEntity { x: 1, y: 1 });
    s.apply(&Interaction::CreateControlEntity { tx });
    s.apply(&Interaction::CreateEntity { x: 2, y: 2 });
    assert_eq!(sorted(&s), vec![(0, 1, 1, 0, 0), (1, 300, 300, 0, 0), (2, 2, 2, 0, 0)]);
}

#[test]
fn disconnected_id_stays_gone_until_clear() {
    let mut s = GameState::new();
    s.apply(&Interaction::CreateEntity { x: 1, y: 1 });
    s.apply(&Interaction::DisconnectControlEntity { id: 0 });
    for _ in 0..3 {
        s.apply(&Interaction::CreateEntity { x: 1, y: 1 });
    }
    s.apply(&Interaction::MoveEntity { x: 1, y: 1, id: 0 });
    assert!(s.objects().iter().all(|o| o.id != 0));
    s.apply(&Interaction::ClearEntities);
    s.apply(&Interaction::CreateEntity { x: 1, y: 1 });
    assert_eq!(sorted(&s), vec![(0, 1, 1, 0, 0)]);
}

#[test]
fn interaction_clones() {
    let e = Interaction::MoveEntity { x: 1, y: 2, id: 3 };
    assert!(matches!(e.clone(), Interaction::MoveEntity { x: 1, y: 2, id: 3 }));
}
