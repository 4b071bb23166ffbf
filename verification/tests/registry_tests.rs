use roomler_core::dispatcher::{
    broadcast, recipients_except, resolve_targets, send_to_connection, send_to_user,
};
use roomler_core::events::Target;
use roomler_core::ids::ObjectId;
use roomler_core::storage::WsStorage;

fn oid(n: u128) -> ObjectId {
    ObjectId::from_value(n).unwrap()
}

#[test]
fn a_user_with_n_connections_is_reached_on_exactly_n_sinks() {
    let mut storage = WsStorage::new();
    let (u, v) = (oid(1), oid(2));
    assert!(storage.add(u, "c1".to_string(), 11));
    assert!(storage.add(v, "c3".to_string(), 33));
    assert!(storage.add(u, "c2".to_string(), 22));
    assert_eq!(storage.get_senders(&u), vec![11, 22]);
    assert_eq!(storage.get_senders(&v), vec![33]);
    assert_eq!(storage.get_senders(&oid(3)), Vec::<u64>::new());
    assert_eq!(send_to_user(&storage, &u), vec![11, 22]);
    assert_eq!(broadcast(&storage, &vec![v, u, oid(9)]), vec![33, 11, 22]);
    assert_eq!(storage.connection_count(), 3);
    let mut users: Vec<u128> = storage.all_user_ids().iter().map(|id| id.value()).collect();
    users.sort();
    assert_eq!(users, vec![1, 2]);
}

#[test]
fn a_connection_has_one_entry_at_most() {
    let mut storage = WsStorage::new();
    assert!(storage.add(oid(1), "c1".to_string(), 11));
    assert!(!storage.add(oid(1), "c1".to_string(), 12));
    assert!(!storage.add(oid(2), "c1".to_string(), 13));
    assert_eq!(storage.get_sender_by_connection("c1"), Some(11));
    assert_eq!(storage.get_senders(&oid(2)), Vec::<u64>::new());
    assert_eq!(storage.connection_count(), 1);
}

#[test]
fn removing_the_last_connection_removes_the_user() {
    let mut storage = WsStorage::new();
    let u = oid(1);
    storage.add(u, "c1".to_string(), 11);
    storage.add(u, "c2".to_string(), 22);
    assert!(!storage.remove(&u, "c9"));
    assert!(!storage.remove(&oid(2), "c1"));
    assert!(storage.remove(&u, "c1"));
    assert_eq!(storage.get_senders(&u), vec![22]);
    assert_eq!(storage.get_sender_by_connection("c1"), None);
    assert_eq!(send_to_connection(&storage, "c2"), Some(22));
    assert_eq!(storage.all_user_ids().len(), 1);
    assert!(storage.remove(&u, "c2"));
    assert!(storage.all_user_ids().is_empty());
    assert_eq!(storage.connection_count(), 0);
    assert!(!storage.remove(&u, "c2"));
    assert!(storage.add(u, "c2".to_string(), 23));
    assert_eq!(storage.get_senders(&u), vec![23]);
}

#[test]
fn multi_tab_fan_out_reaches_the_other_user_only() {
    // U holds C1 and C2, V holds C3; V posts a message into a room of U and V.
    let mut storage = WsStorage::new();
    let (u, v) = (oid(0xa), oid(0xb));
    storage.add(u, "C1".to_string(), 1);
    storage.add(u, "C2".to_string(), 2);
    storage.add(v, "C3".to_string(), 3);
    let recipients = recipients_except(&vec![u, v], &v);
    assert_eq!(recipients, vec![u]);
    let sinks = broadcast(&storage, &recipients);
    assert_eq!(sinks, vec![1, 2]);
    assert!(!sinks.contains(&3));
}

#[test]
fn recipients_never_hold_the_sender() {
    let (a, b, c) = (oid(1), oid(2), oid(3));
    assert_eq!(recipients_except(&vec![a, b, c, b], &b), vec![a, c]);
    assert_eq!(recipients_except(&vec![b], &b), Vec::<ObjectId>::new());
    assert_eq!(recipients_except(&Vec::new(), &b), Vec::<ObjectId>::new());
    assert_eq!(recipients_except(&vec![a, c], &b), vec![a, c]);
}

#[test]
fn targets_resolve_to_sinks_in_order() {
    let mut storage = WsStorage::new();
    storage.add(oid(1), "c1".to_string(), 11);
    storage.add(oid(1), "c2".to_string(), 22);
    storage.add(oid(2), "c3".to_string(), 33);
    let targets = vec![
        Target::Connection("c3".to_string()),
        Target::Connection("closed".to_string()),
        Target::User(oid(1)),
        Target::User(oid(7)),
        Target::Connection("c1".to_string()),
    ];
    assert_eq!(resolve_targets(&storage, &targets), vec![33, 11, 22, 11]);
}
