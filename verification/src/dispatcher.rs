use crate::events::{Target, TargetView};
use crate::ids::ObjectId;
use crate::seqs::views;
use crate::storage::{StorageView, WsStorage};
use vstd::prelude::*;

verus! {

/// The sinks that a broadcast to `users` writes to: for each user in
/// order, the sinks of the user's open connections, oldest first.
pub open spec fn broadcast_sinks(storage: StorageView, users: Seq<ObjectId>) -> Seq<u64>
    decreases users.len(),
{
    if users.len() == 0 {
        Seq::empty()
    } else {
        broadcast_sinks(storage, users.drop_last()) + storage.senders_of(users.last())
    }
}

/// The sinks that reach a target: a connection's sink if the connection is
/// open, or the sinks of all open connections of a user.
pub open spec fn target_sinks(storage: StorageView, target: TargetView) -> Seq<u64> {
    match target {
        TargetView::Connection(c) => match storage.sender_of(c) {
            Some(sink) => seq![sink],
            None => Seq::empty(),
        },
        TargetView::User(u) => storage.senders_of(u),
    }
}

/// The sinks that reach `targets`, target by target.
pub open spec fn targets_sinks(storage: StorageView, targets: Seq<TargetView>) -> Seq<u64>
    decreases targets.len(),
{
    if targets.len() == 0 {
        Seq::empty()
    } else {
        targets_sinks(storage, targets.drop_last()) + target_sinks(storage, targets.last())
    }
}

/// The users of `users` other than `sender`, in order.
pub open spec fn users_except(users: Seq<ObjectId>, sender: ObjectId) -> Seq<ObjectId> {
    users.filter(is_not(sender))
}

/// The predicate that holds of every user but `sender`.
pub open spec fn is_not(sender: ObjectId) -> spec_fn(ObjectId) -> bool {
    |u: ObjectId| u != sender
}

/// The sinks to write a message to when it goes to all connections of the
/// given users. A user with N open connections contributes exactly N
/// sinks, those of the user's own connections.
pub fn broadcast(storage: &WsStorage, user_ids: &Vec<ObjectId>) -> (sinks: Vec<u64>)
    requires
        storage@.wf(),
    ensures
        sinks@ == broadcast_sinks(storage@, user_ids@),
{
    let mut sinks: Vec<u64> = Vec::new();
    let mut i: usize = 0;
    while i < user_ids.len()
        invariant
            i <= user_ids.len(),
            storage@.wf(),
            sinks@ == broadcast_sinks(storage@, user_ids@.take(i as int)),
        decreases user_ids.len() - i,
    {
        let mut senders = storage.get_senders(&user_ids[i]);
        proof {
            assert(user_ids@.take(i as int + 1).drop_last() =~= user_ids@.take(i as int));
            assert(user_ids@.take(i as int + 1).last() == user_ids@[i as int]);
        }
        sinks.append(&mut senders);
        i += 1;
    }
    proof {
        assert(user_ids@.take(user_ids@.len() as int) =~= user_ids@);
    }
    sinks
}

/// The sinks to write a message to when it goes to all connections of one user.
pub fn send_to_user(storage: &WsStorage, user_id: &ObjectId) -> (sinks: Vec<u64>)
    requires
        storage@.wf(),
    ensures
        sinks@ == storage@.senders_of(*user_id),
        sinks@.len() == storage@.connections_of(*user_id).len(),
{
    storage.get_senders(user_id)
}

/// The sink to write a message to when it goes to one connection, if the
/// connection is open.
pub fn send_to_connection(storage: &WsStorage, connection_id: &str) -> (sink: Option<u64>)
    ensures
        sink == storage@.sender_of(connection_id@),
{
    storage.get_sender_by_connection(connection_id)
}

/// The sinks to write a message to when it goes to `targets`.
pub fn resolve_targets(storage: &WsStorage, targets: &Vec<Target>) -> (sinks: Vec<u64>)
    requires
        storage@.wf(),
    ensures
        sinks@ == targets_sinks(storage@, views(targets@)),
{
    let mut sinks: Vec<u64> = Vec::new();
    let ghost all = views(targets@);
    let mut i: usize = 0;
    while i < targets.len()
        invariant
            i <= targets.len(),
            storage@.wf(),
            all == views(targets@),
            sinks@ == targets_sinks(storage@, all.take(i as int)),
        decreases targets.len() - i,
    {
        proof {
            assert(all.take(i as int + 1).drop_last() =~= all.take(i as int));
            assert(all.take(i as int + 1).last() == targets@[i as int]@);
        }
        match &targets[i] {
            Target::Connection(c) => {
                match storage.get_sender_by_connection(c.as_str()) {
                    Some(sink) => {
                        sinks.push(sink);
                        proof {
                            let before = targets_sinks(storage@, all.take(i as int));
                            assert(before.push(sink) =~= before + seq![sink]);
                        }
                    },
                    None => {
                        proof {
                            let before = targets_sinks(storage@, all.take(i as int));
                            assert(before + Seq::<u64>::empty() =~= before);
                        }
                    },
                }
            },
            Target::User(u) => {
                let mut senders = storage.get_senders(u);
                sinks.append(&mut senders);
            },
        }
        i += 1;
    }
    proof {
        assert(all.take(all.len() as int) =~= all);
    }
    sinks
}

/// The users of `users` other than `sender`, in order: those who are told
/// of what `sender` did.
pub fn recipients_except(users: &Vec<ObjectId>, sender: &ObjectId) -> (others: Vec<ObjectId>)
    ensures
        others@ == users_except(users@, *sender),
        !others@.contains(*sender),
{
    let ghost keep = is_not(*sender);
    let mut others: Vec<ObjectId> = Vec::new();
    let mut i: usize = 0;
    proof {
        reveal(Seq::filter);
        assert(users@.take(0).filter(keep) =~= Seq::<ObjectId>::empty());
    }
    while i < users.len()
        invariant
            i <= users.len(),
            keep == is_not(*sender),
            others@ == users@.take(i as int).filter(keep),
            forall|k: int| 0 <= k < others@.len() ==> others@[k] != *sender,
        decreases users.len() - i,
    {
        proof {
            crate::seqs::lemma_filter_take_step(users@, keep, i as int);
        }
        if !users[i].same(sender) {
            others.push(users[i]);
        }
        i += 1;
    }
    proof {
        assert(users@.take(users@.len() as int) =~= users@);
    }
    others
}

/// A broadcast to one user writes to as many sinks as the user has open
/// connections, and each of them is the sink of one of the user's own
/// connections.
pub proof fn lemma_broadcast_reaches_own_connections(storage: StorageView, user: ObjectId)
    ensures
        broadcast_sinks(storage, seq![user]).len() == storage.connections_of(user).len(),
        forall|i: int|
            0 <= i < storage.connections_of(user).len() ==> broadcast_sinks(
                storage,
                seq![user],
            )[i] == storage.sinks[#[trigger] storage.connections_of(user)[i]],
{
    reveal_with_fuel(broadcast_sinks, 2);
    assert(seq![user].drop_last() =~= Seq::<ObjectId>::empty());
    assert(broadcast_sinks(storage, seq![user]) =~= storage.senders_of(user));
}

} // verus!
