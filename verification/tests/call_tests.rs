use roomler_core::calls::{
    call_message_created, distinct, handle_call_end, handle_call_join, handle_call_leave,
    handle_call_start, message_deleted, message_pinned, message_saved, notification_new,
};
use roomler_core::dispatcher::resolve_targets;
use roomler_core::events::{Delivery, OutboundEvent, Target};
use roomler_core::ids::ObjectId;
use roomler_core::media::RoomManager;
use roomler_core::membership::{CallError, JoinKind, RoomCall};
use roomler_core::models::CallState;
use roomler_core::storage::WsStorage;

fn oid(n: u128) -> ObjectId {
    ObjectId::from_value(n).unwrap()
}

fn users(d: &Delivery) -> Vec<ObjectId> {
    d.targets
        .iter()
        .map(|t| match t {
            Target::User(u) => *u,
            Target::Connection(c) => panic!("{c}"),
        })
        .collect()
}

#[test]
fn multi_tab_fan_out() {
    // U opens C1 and C2, V opens C3; V posts into a room of U and V.
    let (u, v) = (oid(1), oid(2));
    let mut storage = WsStorage::new();
    storage.add(u, "C1".to_string(), 101);
    storage.add(u, "C2".to_string(), 102);
    storage.add(v, "C3".to_string(), 103);
    let payload = "{\"id\":\"m1\",\"content\":\"hi\"}".to_string();
    let delivery = message_saved(true, payload.clone(), &vec![u, v], &v);
    assert_eq!(delivery.event.event_type(), "message:create");
    assert!(matches!(&delivery.event, OutboundEvent::MessageSaved { message, .. } if *message == payload));
    assert_eq!(users(&delivery), vec![u]);
    assert_eq!(resolve_targets(&storage, &delivery.targets), vec![101, 102]);
}

#[test]
fn message_events_have_their_types_and_recipients() {
    let members = vec![oid(1), oid(2), oid(3)];
    let updated = message_saved(false, "{}".to_string(), &members, &oid(2));
    assert_eq!(updated.event.event_type(), "message:update");
    assert_eq!(users(&updated), vec![oid(1), oid(3)]);
    let deleted = message_deleted("m", "r", &members, &oid(1));
    assert_eq!(deleted.event.event_type(), "message:delete");
    assert_eq!(users(&deleted), vec![oid(2), oid(3)]);
    assert!(matches!(&deleted.event, OutboundEvent::MessageDeleted { id, room_id } if id == "m" && room_id == "r"));
    let pinned = message_pinned("m", "r", true, &members);
    assert_eq!(pinned.event.event_type(), "message:pin");
    assert_eq!(users(&pinned), members);
    assert_eq!(message_pinned("m", "r", false, &members).event.event_type(), "message:unpin");
    let chat = call_message_created("{}".to_string(), &members);
    assert_eq!(chat.len(), 1);
    assert_eq!(chat[0].event.event_type(), "call:message:create");
    assert!(call_message_created("{}".to_string(), &Vec::new()).is_empty());
    let note = notification_new(oid(4), "n".to_string(), "t".to_string(), "b".to_string(), None, "now".to_string());
    assert_eq!(note.event.event_type(), "notification:new");
    assert_eq!(users(&note), vec![oid(4)]);
}

#[test]
fn distinct_keeps_the_first_of_each() {
    assert_eq!(distinct(&vec![oid(2), oid(1), oid(2), oid(3), oid(1)]), vec![oid(2), oid(1), oid(3)]);
    assert!(distinct(&Vec::new()).is_empty());
}

#[test]
fn a_call_runs_from_start_to_end_and_starts_again() {
    let room = oid(0x77);
    let (a, b) = (oid(1), oid(2));
    let mut rooms = RoomManager::new();
    let mut call = RoomCall::new(oid(9), room);
    call.join(a, 0);
    call.join(b, 0);
    let members = call.find_member_user_ids();

    let started = handle_call_start(&mut rooms, &mut call, "standup", a, 10, &members);
    assert!(started.created);
    assert_eq!(call.state, CallState::InProgress);
    assert!(rooms.has_room(&room));
    assert_eq!(started.deliveries.len(), 1);
    assert_eq!(users(&started.deliveries[0]), vec![a, b]);
    assert!(matches!(
        &started.deliveries[0].event,
        OutboundEvent::CallStarted { room_id, room_name, started_by } if *room_id == room && room_name == "standup" && *started_by == a
    ));
    assert!(!handle_call_start(&mut rooms, &mut call, "standup", b, 11, &members).created);

    let (kind, told) = handle_call_join(&mut call, a, "Ada".to_string(), "web".to_string(), 12, &members).unwrap();
    assert_eq!(kind, JoinKind::Rejoined);
    assert!(matches!(&told[0].event, OutboundEvent::CallUpdated { participant_count: 1, .. }));
    assert_eq!(told[0].event.event_type(), "room:call_updated");
    rooms.create_transports(&room, a, "a1").unwrap();
    rooms.create_transports(&room, a, "a2").unwrap();
    rooms.create_transports(&room, b, "b1").unwrap();

    let left = handle_call_leave(&mut rooms, &mut call, a, 20);
    let gone: Vec<&str> = left.closed.iter().map(|p| p.connection_id.as_str()).collect();
    assert_eq!(gone, vec!["a1", "a2"]);
    assert_eq!(left.deliveries.len(), 1);
    assert_eq!(users(&left.deliveries[0]), vec![b]);
    assert!(matches!(&left.deliveries[0].event, OutboundEvent::UserLeft { user_id, .. } if *user_id == a));
    assert_eq!(left.deliveries[0].event.event_type(), "media:peer_left");
    assert_eq!(rooms.get_participant_user_ids(&room), vec![b]);
    assert_eq!(call.participant_count, 0);

    rooms.create_transports(&room, b, "b2").unwrap();
    let ended = handle_call_end(&mut rooms, &mut call, 30, &members);
    assert!(ended.removed);
    assert_eq!(call.state, CallState::Ended);
    assert!(!rooms.has_room(&room));
    let types: Vec<&str> = ended.deliveries.iter().map(|d| d.event.event_type()).collect();
    assert_eq!(types, vec!["media:room_closed", "room:call_ended"]);
    assert_eq!(users(&ended.deliveries[0]), vec![b]);
    assert_eq!(users(&ended.deliveries[1]), vec![a, b]);
    assert!(matches!(
        handle_call_join(&mut call, b, "Bob".to_string(), "web".to_string(), 31, &members),
        Err(CallError::CallEnded)
    ));

    let again = handle_call_start(&mut rooms, &mut call, "standup", b, 40, &members);
    assert!(again.created);
    assert_eq!(call.state, CallState::InProgress);
    assert!(rooms.get_participant_user_ids(&room).is_empty());
    let quiet = handle_call_end(&mut rooms, &mut call, 50, &Vec::new());
    assert!(quiet.removed && quiet.deliveries.is_empty());
    assert!(!handle_call_end(&mut rooms, &mut call, 51, &Vec::new()).removed);
}
