use crate::ids::{ObjectId, OBJECT_ID_LIMIT};
use crate::seqs::{
    filter_source, lemma_filter_drops_one, lemma_filter_is_subsequence,
    lemma_filter_keeps_passing, lemma_filter_take_step, views,
};
use crate::tables::{
    count_numbers_by_text, drop_list_by_number, list_by_number, lists_by_number, lists_keys,
    new_lists_by_number, new_numbers_by_text, number_by_text, numbers_by_text,
    numbers_with_lists, put_list_by_number, put_number_by_text, take_number_by_text,
    texts_with_numbers,
};
use crate::text::str_eq;
use dashmap::DashMap;
use vstd::prelude::*;

verus! {

/// What the connection registry holds: per user the connections that are
/// open, oldest first, and per connection the sink that writes to it.
pub ghost struct StorageView {
    pub users: Map<u128, Seq<Seq<char>>>,
    pub sinks: Map<Seq<char>, u64>,
}

/// The predicate that holds of every connection but `connection_id`.
pub open spec fn other_than(connection_id: Seq<char>) -> spec_fn(Seq<char>) -> bool {
    |c: Seq<char>| c != connection_id
}

impl StorageView {
    /// The open connections of `user`, oldest first.
    pub open spec fn connections_of(self, user: ObjectId) -> Seq<Seq<char>> {
        if self.users.dom().contains(user@ as u128) {
            self.users[user@ as u128]
        } else {
            Seq::empty()
        }
    }

    /// The sinks of the open connections of `user`, one per connection, oldest first.
    pub open spec fn senders_of(self, user: ObjectId) -> Seq<u64> {
        Seq::new(
            self.connections_of(user).len(),
            |i: int| self.sinks[self.connections_of(user)[i]],
        )
    }

    /// The sink of a connection, if the connection is open.
    pub open spec fn sender_of(self, connection_id: Seq<char>) -> Option<u64> {
        if self.sinks.dom().contains(connection_id) {
            Some(self.sinks[connection_id])
        } else {
            None
        }
    }

    /// The registry after `user` opened the connection `connection_id` with the sink `sink`.
    pub open spec fn with(self, user: ObjectId, connection_id: Seq<char>, sink: u64)
        -> StorageView {
        StorageView {
            users: self.users.insert(
                user@ as u128,
                self.connections_of(user).push(connection_id),
            ),
            sinks: self.sinks.insert(connection_id, sink),
        }
    }

    /// The registry after the connection `connection_id` of `user` closed:
    /// the connection is gone, and so is the user where it was the last.
    pub open spec fn without(self, user: ObjectId, connection_id: Seq<char>) -> StorageView {
        let rest = self.connections_of(user).filter(other_than(connection_id));
        StorageView {
            users: if rest.len() == 0 {
                self.users.remove(user@ as u128)
            } else {
                self.users.insert(user@ as u128, rest)
            },
            sinks: self.sinks.remove(connection_id),
        }
    }

    /// The registry holds finitely many users and connections, every user
    /// listed has an open connection, no connection is listed twice or
    /// under two users, every listed connection has a sink, and every user
    /// key is an identifier.
    pub open spec fn wf(self) -> bool {
        &&& self.users.dom().finite()
        &&& self.sinks.dom().finite()
        &&& forall|u: u128| #[trigger]
            self.users.dom().contains(u) ==> self.users[u].len() > 0
                && self.users[u].no_duplicates() && u < OBJECT_ID_LIMIT
        &&& forall|u: u128, i: int|
            self.users.dom().contains(u) && 0 <= i < self.users[u].len()
                ==> self.sinks.dom().contains(#[trigger] self.users[u][i])
        &&& forall|u: u128, v: u128, i: int, j: int|
            self.users.dom().contains(u) && self.users.dom().contains(v) && 0 <= i
                < self.users[u].len() && 0 <= j < self.users[v].len() && (
            #[trigger] self.users[u][i]) == (#[trigger] self.users[v][j]) ==> u == v
    }
}

/// The registry of open connections: which connections each user holds,
/// and which sink writes to each connection. A user may hold many
/// connections; a connection has one sink.
pub struct WsStorage {
    connections: DashMap<u128, Vec<String>>,
    sinks: DashMap<String, u64>,
}

impl View for WsStorage {
    type V = StorageView;

    closed spec fn view(&self) -> StorageView {
        StorageView {
            users: lists_by_number(self.connections),
            sinks: numbers_by_text(self.sinks),
        }
    }
}

impl Default for WsStorage {
    fn default() -> (storage: WsStorage)
        ensures
            storage@.wf(),
            storage@.users =~= Map::empty(),
            storage@.sinks =~= Map::empty(),
    {
        WsStorage::new()
    }
}

impl WsStorage {
    /// An empty registry.
    pub fn new() -> (storage: WsStorage)
        ensures
            storage@.wf(),
            storage@.users =~= Map::empty(),
            storage@.sinks =~= Map::empty(),
    {
        WsStorage { connections: new_lists_by_number(), sinks: new_numbers_by_text() }
    }

    /// Registers a connection of `user_id` with its sink. Returns `false`
    /// and changes nothing where the connection is registered already: a
    /// connection has one entry at most.
    pub fn add(&mut self, user_id: ObjectId, connection_id: String, sink: u64) -> (added: bool)
        requires
            old(self)@.wf(),
        ensures
            final(self)@.wf(),
            added == !old(self)@.sinks.dom().contains(connection_id@),
            added ==> final(self)@ == old(self)@.with(user_id, connection_id@, sink),
            !added ==> final(self)@ == old(self)@,
    {
        if number_by_text(&self.sinks, connection_id.as_str()).is_some() {
            return false;
        }
        let key: u128 = user_id.value();
        let mut list: Vec<String> = match list_by_number(&self.connections, key) {
            Some(l) => l,
            None => Vec::new(),
        };
        let ghost before = views(list@);
        proof {
            if !old(self)@.users.dom().contains(key) {
                assert(before =~= Seq::<Seq<char>>::empty());
            }
            assert(before == old(self)@.connections_of(user_id));
        }
        list.push(connection_id.clone());
        proof {
            assert(views(list@) =~= before.push(connection_id@));
        }
        put_list_by_number(&mut self.connections, key, list);
        put_number_by_text(&mut self.sinks, connection_id, sink);
        proof {
            let o = old(self)@;
            let n = self@;
            let c = connection_id@;
            assert(n.users == o.users.insert(key, before.push(c)));
            assert(n.sinks == o.sinks.insert(c, sink));
            // no listed connection equals the new one: each has a sink, the new one had none
            assert forall|u: u128, i: int|
                o.users.dom().contains(u) && 0 <= i < o.users[u].len() implies (
            #[trigger] o.users[u][i]) != c by {
                assert(o.sinks.dom().contains(o.users[u][i]));
            }
            assert forall|u: u128| #[trigger] n.users.dom().contains(u) implies n.users[u].len() > 0
                && n.users[u].no_duplicates() && u < OBJECT_ID_LIMIT by {
                if u == key {
                    assert forall|i: int, j: int|
                        0 <= i < n.users[u].len() && 0 <= j < n.users[u].len() && i
                            != j implies n.users[u][i] != n.users[u][j] by {
                        if i < before.len() && j < before.len() {
                            assert(o.users[key][i] != o.users[key][j]);
                        } else if i < before.len() {
                            assert(o.users[key][i] != c);
                        } else if j < before.len() {
                            assert(o.users[key][j] != c);
                        }
                    }
                } else {
                    assert(o.users.dom().contains(u));
                }
            }
            assert forall|u: u128, i: int|
                n.users.dom().contains(u) && 0 <= i < n.users[u].len() implies n.sinks.dom().contains(
                #[trigger] n.users[u][i],
            ) by {
                if u == key {
                    if i < before.len() {
                        assert(o.sinks.dom().contains(o.users[key][i]));
                    }
                } else {
                    assert(o.sinks.dom().contains(o.users[u][i]));
                }
            }
            assert forall|u: u128, v: u128, i: int, j: int|
                n.users.dom().contains(u) && n.users.dom().contains(v) && 0 <= i
                    < n.users[u].len() && 0 <= j < n.users[v].len() && (#[trigger] n.users[u][i])
                    == (#[trigger] n.users[v][j]) implies u == v by {
                if u != v {
                    if u == key {
                        if i < before.len() {
                            assert(o.users[u][i] == o.users[v][j]);
                        } else {
                            assert(o.users[v][j] != c);
                        }
                    } else if v == key {
                        if j < before.len() {
                            assert(o.users[u][i] == o.users[v][j]);
                        } else {
                            assert(o.users[u][i] != c);
                        }
                    } else {
                        assert(o.users[u][i] == o.users[v][j]);
                    }
                }
            }
        }
        true
    }

    /// Unregisters a connection of `user_id`: the connection's entry is
    /// deleted, and the user's where this was the user's last connection.
    /// Returns `false` and changes nothing where the user holds no such
    /// connection.
    pub fn remove(&mut self, user_id: &ObjectId, connection_id: &str) -> (removed: bool)
        requires
            old(self)@.wf(),
        ensures
            final(self)@.wf(),
            removed == old(self)@.connections_of(*user_id).contains(connection_id@),
            removed ==> final(self)@ == old(self)@.without(*user_id, connection_id@),
            !removed ==> final(self)@ == old(self)@,
    {
        let key: u128 = user_id.value();
        let mut list: Vec<String> = match list_by_number(&self.connections, key) {
            Some(l) => l,
            None => {
                return false;
            },
        };
        let ghost before = views(list@);
        let ghost c = connection_id@;
        let ghost keep = other_than(c);
        let mut at: usize = 0;
        while at < list.len()
            invariant
                at <= list.len(),
                before == views(list@),
                c == connection_id@,
                forall|k: int| 0 <= k < at ==> before[k] != c,
            ensures
                at <= list.len(),
                at < list.len() ==> before[at as int] == c,
                forall|k: int| 0 <= k < at ==> before[k] != c,
            decreases list.len() - at,
        {
            proof {
                assert(before[at as int] == list@[at as int]@);
            }
            if str_eq(list[at].as_str(), connection_id) {
                break;
            }
            at += 1;
        }
        if at == list.len() {
            proof {
                assert forall|k: int| 0 <= k < before.len() implies before[k] != c by {}
                assert(!before.contains(c));
            }
            return false;
        }
        proof {
            assert(before[at as int] == list@[at as int]@);
            assert(before[at as int] == c);
            assert(before.contains(c));
            assert(old(self)@.users.dom().contains(key));
            assert(before == old(self)@.users[key]);
            assert(before.no_duplicates());
            assert forall|i: int| 0 <= i < before.len() && i != at implies keep(
                #[trigger] before[i],
            ) by {
                assert(before[i] != before[at as int]);
            }
            lemma_filter_drops_one(before, keep, at as int);
        }
        list.remove(at);
        proof {
            assert(views(list@) =~= before.remove(at as int));
        }
        let ghost rest = views(list@);
        if list.len() == 0 {
            drop_list_by_number(&mut self.connections, key);
        } else {
            put_list_by_number(&mut self.connections, key, list);
        }
        let _ = take_number_by_text(&mut self.sinks, connection_id);
        proof {
            let o = old(self)@;
            let n = self@;
            assert(n == o.without(*user_id, c));
            assert forall|i: int| 0 <= i < rest.len() implies (#[trigger] rest[i]) != c
                && before.contains(rest[i]) by {
                let i0 = if i < at {
                    i
                } else {
                    i + 1
                };
                assert(rest[i] == before[i0]);
                assert(before[i0] != before[at as int]);
            }
            assert forall|u: u128| #[trigger] n.users.dom().contains(u) implies n.users[u].len() > 0
                && n.users[u].no_duplicates() && u < OBJECT_ID_LIMIT by {
                assert(o.users.dom().contains(u));
                if u == key {
                    assert forall|i: int, j: int|
                        0 <= i < rest.len() && 0 <= j < rest.len() && i != j implies rest[i]
                        != rest[j] by {
                        let i0 = if i < at {
                            i
                        } else {
                            i + 1
                        };
                        let j0 = if j < at {
                            j
                        } else {
                            j + 1
                        };
                        assert(before[i0] != before[j0]);
                    }
                }
            }
            assert forall|u: u128, i: int|
                n.users.dom().contains(u) && 0 <= i < n.users[u].len() implies n.sinks.dom().contains(
                #[trigger] n.users[u][i],
            ) by {
                if u == key {
                    let i0 = if i < at {
                        i
                    } else {
                        i + 1
                    };
                    assert(rest[i] == o.users[key][i0]);
                    assert(o.sinks.dom().contains(o.users[key][i0]));
                } else {
                    assert(o.sinks.dom().contains(o.users[u][i]));
                    assert(o.users[u][i] == o.users[key][at as int] ==> u == key);
                }
            }
            assert forall|u: u128, v: u128, i: int, j: int|
                n.users.dom().contains(u) && n.users.dom().contains(v) && 0 <= i
                    < n.users[u].len() && 0 <= j < n.users[v].len() && (#[trigger] n.users[u][i])
                    == (#[trigger] n.users[v][j]) implies u == v by {
                let i0 = if u == key && i >= at {
                    i + 1
                } else {
                    i
                };
                let j0 = if v == key && j >= at {
                    j + 1
                } else {
                    j
                };
                assert(o.users[u][i0] == o.users[v][j0]);
            }
        }
        true
    }

    /// The sinks of the user's open connections, one per connection, oldest first.
    pub fn get_senders(&self, user_id: &ObjectId) -> (senders: Vec<u64>)
        requires
            self@.wf(),
        ensures
            senders@ == self@.senders_of(*user_id),
            senders@.len() == self@.connections_of(*user_id).len(),
    {
        let key: u128 = user_id.value();
        let mut senders: Vec<u64> = Vec::new();
        let list: Vec<String> = match list_by_number(&self.connections, key) {
            Some(l) => l,
            None => {
                assert(senders@ =~= self@.senders_of(*user_id));
                return senders;
            },
        };
        let mut i: usize = 0;
        while i < list.len()
            invariant
                i <= list.len(),
                self@.wf(),
                key == user_id@,
                self@.users.dom().contains(key),
                views(list@) == self@.users[key],
                senders@ == self@.senders_of(*user_id).take(i as int),
            decreases list.len() - i,
        {
            proof {
                assert(self@.sinks.dom().contains(self@.users[key][i as int]));
                assert(views(list@)[i as int] == list@[i as int]@);
            }
            match number_by_text(&self.sinks, list[i].as_str()) {
                Some(sink) => {
                    senders.push(sink);
                },
                None => {},
            }
            proof {
                assert(senders@ =~= self@.senders_of(*user_id).take(i as int + 1));
            }
            i += 1;
        }
        proof {
            assert(self@.senders_of(*user_id).take(list.len() as int) =~= self@.senders_of(
                *user_id,
            ));
        }
        senders
    }

    /// The sink of a connection, if the connection is open.
    pub fn get_sender_by_connection(&self, connection_id: &str) -> (sender: Option<u64>)
        ensures
            sender == self@.sender_of(connection_id@),
    {
        number_by_text(&self.sinks, connection_id)
    }

    /// The users that hold an open connection, each once, in no particular order.
    pub fn all_user_ids(&self) -> (users: Vec<ObjectId>)
        requires
            self@.wf(),
        ensures
            lists_keys(Seq::new(users@.len(), |i: int| users@[i]@ as u128), self@.users.dom()),
    {
        let keys = numbers_with_lists(&self.connections);
        let mut users: Vec<ObjectId> = Vec::new();
        let mut i: usize = 0;
        while i < keys.len()
            invariant
                i <= keys.len(),
                self@.wf(),
                lists_keys(keys@, self@.users.dom()),
                users@.len() == i,
                forall|k: int| 0 <= k < i ==> (#[trigger] users@[k])@ == keys@[k],
            decreases keys.len() - i,
        {
            proof {
                assert(keys@.contains(keys@[i as int]));
                assert(self@.users.dom().contains(keys@[i as int]));
            }
            match ObjectId::from_value(keys[i]) {
                Some(id) => {
                    users.push(id);
                },
                None => {},
            }
            i += 1;
        }
        proof {
            assert(Seq::new(users@.len(), |i: int| users@[i]@ as u128) =~= keys@);
        }
        users
    }

    /// The open connections other than `connection_id`, each once, in no
    /// particular order.
    pub fn connections_except(&self, connection_id: &str) -> (others: Vec<String>)
        ensures
            lists_keys(views(others@), self@.sinks.dom().remove(connection_id@)),
    {
        let keys = texts_with_numbers(&self.sinks);
        let ghost names = views(keys@);
        let ghost c = connection_id@;
        let mut others: Vec<String> = Vec::new();
        let mut i: usize = 0;
        while i < keys.len()
            invariant
                i <= keys.len(),
                names == views(keys@),
                c == connection_id@,
                names.no_duplicates(),
                views(others@) == names.take(i as int).filter(other_than(c)),
            decreases keys.len() - i,
        {
            proof {
                lemma_filter_take_step(names, other_than(c), i as int);
                assert(names[i as int] == keys@[i as int]@);
            }
            if !str_eq(keys[i].as_str(), connection_id) {
                let ghost before = views(others@);
                others.push(keys[i].clone());
                proof {
                    assert(views(others@) =~= before.push(names[i as int]));
                }
            }
            i += 1;
        }
        proof {
            assert(names.take(names.len() as int) =~= names);
            let kept = names.filter(other_than(c));
            lemma_filter_is_subsequence(names, other_than(c));
            assert forall|a: int, b: int| 0 <= a < b < kept.len() implies kept[a] != kept[b] by {
                let x = filter_source(names, other_than(c), a);
                let y = filter_source(names, other_than(c), b);
                assert(x < y);
                assert(names[x] != names[y]);
            }
            assert forall|k: Seq<char>| kept.contains(k) <==> self@.sinks.dom().remove(c).contains(
                k,
            ) by {
                if kept.contains(k) {
                    let a = choose|a: int| 0 <= a < kept.len() && kept[a] == k;
                    let x = filter_source(names, other_than(c), a);
                    assert(names[x] == k);
                    assert(names.contains(k));
                }
                if self@.sinks.dom().remove(c).contains(k) {
                    assert(names.contains(k));
                    let x = choose|x: int| 0 <= x < names.len() && names[x] == k;
                    lemma_filter_keeps_passing(names, other_than(c), x);
                }
            }
        }
        others
    }

    /// The number of open connections.
    pub fn connection_count(&self) -> (count: usize)
        ensures
            count == self@.sinks.dom().len(),
    {
        count_numbers_by_text(&self.sinks)
    }
}

/// Closing a registered connection leaves one open connection fewer.
pub proof fn lemma_remove_counts_one_less(
    before: StorageView,
    user: ObjectId,
    connection_id: Seq<char>,
)
    requires
        before.wf(),
        before.connections_of(user).contains(connection_id),
    ensures
        before.without(user, connection_id).sinks.dom().len() + 1 == before.sinks.dom().len(),
{
    let list = before.connections_of(user);
    let at = choose|i: int| 0 <= i < list.len() && list[i] == connection_id;
    assert(before.users.dom().contains(user@ as u128));
    assert(before.sinks.dom().contains(before.users[user@ as u128][at]));
}

} // verus!
