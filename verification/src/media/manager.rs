use super::{
    Consumer, JoinState, ManagerView, MediaError, MediaKind, MediaRoom, Participant,
    ParticipantView, Producer, ProducerInfo, ProducerInfoView, ProducerView, RoomView, RtpTap,
    Transport, TransportPair, after_close_producer, after_consume, after_join, after_produce,
    announcements, connect_outcome, connections_of, consume_outcome, fresh_participant, is_of,
    join_result, lemma_joined_wf, lemma_participant_at, lemma_room_at, lemma_room_wf_grows,
    not_of, not_on, not_producer, not_room, produce_outcome, producer_among, producer_in,
    producer_owner, sends_producer, tap_outcome, user_left, visible_producers, with_connected,
    with_tap
};
use crate::ids::ObjectId;
use crate::seqs::{
    filter_source, lemma_filter_drops_one, lemma_filter_is_subsequence, lemma_filter_keeps_all,
    lemma_filter_take_step, views,
};
use crate::text::str_eq;
use vstd::prelude::*;

verus! {

/// The media rooms of the server: per room its participants, keyed by
/// connection, with their transports, producers and consumers. The manager
/// owns the records and gives out the identifiers; the media engine's own
/// objects live with the caller under those identifiers.
#[derive(Debug)]
pub struct RoomManager {
    /// The rooms in the order of their creation; no two share an identifier.
    rooms: Vec<MediaRoom>,
    /// The next identifier to give out; every one given out is below it.
    next_id: u64,
}

impl View for RoomManager {
    type V = ManagerView;

    closed spec fn view(&self) -> ManagerView {
        ManagerView { rooms: views(self.rooms@), next_id: self.next_id }
    }
}

/// Where the participant on `connection_id` stands in `room`.
fn find_participant(room: &MediaRoom, connection_id: &str, Ghost(limit): Ghost<u64>) -> (at:
    Option<usize>)
    requires
        room@.wf(limit),
    ensures
        at is Some <==> room@.has_connection(connection_id@),
        at is Some ==> at.unwrap() < room.participants.len() && room@.participants[at.unwrap() as int].connection_id
            == connection_id@ && room@.participant(connection_id@)
            == room@.participants[at.unwrap() as int],
        at is None ==> forall|k: int|
            0 <= k < room@.participants.len() ==> (#[trigger] room@.participants[k]).connection_id
                != connection_id@,
{
    let mut i: usize = 0;
    while i < room.participants.len()
        invariant
            room@.wf(limit),
            i <= room.participants.len(),
            forall|k: int|
                0 <= k < i ==> (#[trigger] room@.participants[k]).connection_id != connection_id@,
        decreases room.participants.len() - i,
    {
        if str_eq(room.participants[i].connection_id.as_str(), connection_id) {
            proof {
                assert(room@.participants[i as int].connection_id == connection_id@);
                lemma_participant_at(room@, limit, i as int);
            }
            return Some(i);
        }
        i += 1;
    }
    None
}

/// Where the first producer named `producer_id` stands among `producers`.
fn find_producer_among(producers: &Vec<Producer>, producer_id: u64) -> (at: Option<usize>)
    ensures
        at is Some <==> producer_among(views(producers@), producer_id) is Some,
        at is Some ==> at.unwrap() < producers.len() && producers[at.unwrap() as int].id
            == producer_id && producer_among(views(producers@), producer_id) == Some(
            producers[at.unwrap() as int]@,
        ),
        at is None ==> forall|k: int|
            0 <= k < producers.len() ==> (#[trigger] producers[k]).id != producer_id,
{
    let ghost all = views(producers@);
    let mut i: usize = 0;
    assert(all.skip(0) =~= all);
    while i < producers.len()
        invariant
            i <= producers.len(),
            all == views(producers@),
            producer_among(all, producer_id) == producer_among(all.skip(i as int), producer_id),
            forall|k: int| 0 <= k < i ==> (#[trigger] producers[k]).id != producer_id,
        decreases producers.len() - i,
    {
        proof {
            assert(all.skip(i as int)[0] == all[i as int]);
            assert(all.skip(i as int).drop_first() =~= all.skip(i as int + 1));
        }
        if producers[i].id == producer_id {
            return Some(i);
        }
        i += 1;
    }
    proof {
        assert(all.skip(i as int) =~= Seq::<ProducerView>::empty());
    }
    None
}

/// Where the first producer named `producer_id` stands in `room`: the
/// participant's place and the producer's place in its list.
fn find_producer(room: &MediaRoom, producer_id: u64) -> (at: Option<(usize, usize)>)
    ensures
        at is Some <==> producer_in(room@.participants, producer_id) is Some,
        at is Some ==> {
            let (i, k) = at.unwrap();
            &&& i < room.participants.len()
            &&& k < room.participants[i as int].producers.len()
            &&& room.participants[i as int].producers[k as int].id == producer_id
            &&& producer_in(room@.participants, producer_id) == Some(
                room@.participants[i as int].producers[k as int],
            )
            &&& producer_owner(room@.participants, producer_id) == Some(
                room@.participants[i as int],
            )
        },
{
    let ghost all = room@.participants;
    let mut i: usize = 0;
    assert(all.skip(0) =~= all);
    while i < room.participants.len()
        invariant
            i <= room.participants.len(),
            all == room@.participants,
            producer_in(all, producer_id) == producer_in(all.skip(i as int), producer_id),
            producer_owner(all, producer_id) == producer_owner(all.skip(i as int), producer_id),
        decreases room.participants.len() - i,
    {
        proof {
            assert(all.skip(i as int)[0] == all[i as int]);
            assert(all.skip(i as int).drop_first() =~= all.skip(i as int + 1));
        }
        match find_producer_among(&room.participants[i].producers, producer_id) {
            Some(k) => {
                return Some((i, k));
            },
            None => {},
        }
        i += 1;
    }
    proof {
        assert(all.skip(i as int) =~= Seq::<ParticipantView>::empty());
    }
    None
}

/// Replacing one participant's record in one room, the connection and the
/// room staying the same, gives the manager that `put` and `put_room`
/// describe, and keeps it well-formed where the new record is.
proof fn lemma_put_participant(before: ManagerView, after: ManagerView, at: int, j: int)
    requires
        before.wf(),
        0 <= at < before.rooms.len(),
        0 <= j < before.rooms[at].participants.len(),
        after.rooms.len() == before.rooms.len(),
        forall|i: int| 0 <= i < before.rooms.len() && i != at ==> after.rooms[i] == before.rooms[i],
        after.rooms[at].room_id == before.rooms[at].room_id,
        after.rooms[at].participants.len() == before.rooms[at].participants.len(),
        forall|k: int|
            0 <= k < before.rooms[at].participants.len() && k != j ==> after.rooms[at].participants[k]
                == before.rooms[at].participants[k],
        after.rooms[at].participants[j].connection_id
            == before.rooms[at].participants[j].connection_id,
        before.next_id <= after.next_id,
        after.rooms[at].participants[j].ids_below(after.next_id),
    ensures
        after.wf(),
        forall|r: ObjectId| after.has_room(r) <==> before.has_room(r),
        after.rooms == before.put_room(
            before.rooms[at].put(after.rooms[at].participants[j]),
        ).rooms,
        before.room(before.rooms[at].room_id) == before.rooms[at],
        before.rooms[at].participant(before.rooms[at].participants[j].connection_id)
            == before.rooms[at].participants[j],
{
    let room = before.rooms[at];
    let p = after.rooms[at].participants[j];
    lemma_same_rooms(before, after);
    lemma_room_at(before, at);
    lemma_participant_at(room, before.next_id, j);
    let new_room = room.put(p);
    assert(after.rooms[at].participants =~= new_room.participants) by {
        assert forall|k: int| 0 <= k < room.participants.len() implies after.rooms[at].participants[k]
            == new_room.participants[k] by {
            if k < j {
                assert(room.participants[k].connection_id != room.participants[j].connection_id);
            } else if k > j {
                assert(room.participants[j].connection_id != room.participants[k].connection_id);
            }
        }
    }
    assert(after.rooms[at] == new_room);
    let target = before.put_room(new_room);
    assert(after.rooms =~= target.rooms) by {
        assert forall|i: int| 0 <= i < after.rooms.len() implies after.rooms[i]
            == target.rooms[i] by {
            if i < at {
                assert(before.rooms[i].room_id != before.rooms[at].room_id);
            } else if i > at {
                assert(before.rooms[at].room_id != before.rooms[i].room_id);
            }
        }
    }
    assert forall|i: int| 0 <= i < after.rooms.len() implies (#[trigger] after.rooms[i]).wf(
        after.next_id,
    ) by {
        if i != at {
            assert(before.rooms[i].wf(before.next_id));
            lemma_room_wf_grows(before.rooms[i], before.next_id, after.next_id);
        } else {
            lemma_room_wf_grows(room, before.next_id, after.next_id);
            let ps = after.rooms[at].participants;
            assert forall|a: int, b: int| 0 <= a < b < ps.len() implies (
            #[trigger] ps[a]).connection_id != (#[trigger] ps[b]).connection_id by {
                assert(room.participants[a].connection_id != room.participants[b].connection_id);
            }
            assert forall|a: int| 0 <= a < ps.len() implies (#[trigger] ps[a]).ids_below(
                after.next_id,
            ) by {
                if a != j {
                    assert(room.participants[a].ids_below(after.next_id));
                }
            }
        }
    }
    assert forall|a: int, b: int| 0 <= a < b < after.rooms.len() implies (
    #[trigger] after.rooms[a]).room_id != (#[trigger] after.rooms[b]).room_id by {
        assert(before.rooms[a].room_id != before.rooms[b].room_id);
    }
}

/// Managers whose rooms carry the same identifiers, place by place, have the same rooms.
proof fn lemma_same_rooms(before: ManagerView, after: ManagerView)
    requires
        after.rooms.len() == before.rooms.len(),
        forall|i: int|
            0 <= i < before.rooms.len() ==> (#[trigger] after.rooms[i]).room_id
                == before.rooms[i].room_id,
    ensures
        forall|r: ObjectId| after.has_room(r) <==> before.has_room(r),
{
    assert forall|r: ObjectId| after.has_room(r) <==> before.has_room(r) by {
        if after.has_room(r) {
            let i = choose|i: int|
                0 <= i < after.rooms.len() && (#[trigger] after.rooms[i]).room_id == r;
            assert(before.rooms[i].room_id == r);
        }
        if before.has_room(r) {
            let i = choose|i: int|
                0 <= i < before.rooms.len() && (#[trigger] before.rooms[i]).room_id == r;
            assert(after.rooms[i].room_id == r);
        }
    }
}

/// Replacing one room by a well-formed room of the same identifier gives
/// the manager that `put_room` describes, and keeps it well-formed.
proof fn lemma_put_room(before: ManagerView, after: ManagerView, at: int)
    requires
        before.wf(),
        0 <= at < before.rooms.len(),
        after.rooms.len() == before.rooms.len(),
        forall|i: int| 0 <= i < before.rooms.len() && i != at ==> after.rooms[i] == before.rooms[i],
        after.rooms[at].room_id == before.rooms[at].room_id,
        before.next_id <= after.next_id,
        after.rooms[at].wf(after.next_id),
    ensures
        after.wf(),
        forall|r: ObjectId| after.has_room(r) <==> before.has_room(r),
        after.rooms == before.put_room(after.rooms[at]).rooms,
        before.room(before.rooms[at].room_id) == before.rooms[at],
        before.has_room(before.rooms[at].room_id),
{
    lemma_same_rooms(before, after);
    lemma_room_at(before, at);
    let target = before.put_room(after.rooms[at]);
    assert(after.rooms =~= target.rooms) by {
        assert forall|i: int| 0 <= i < after.rooms.len() implies after.rooms[i]
            == target.rooms[i] by {
            if i < at {
                assert(before.rooms[i].room_id != before.rooms[at].room_id);
            } else if i > at {
                assert(before.rooms[at].room_id != before.rooms[i].room_id);
            }
        }
    }
    assert forall|i: int| 0 <= i < after.rooms.len() implies (#[trigger] after.rooms[i]).wf(
        after.next_id,
    ) by {
        if i != at {
            assert(before.rooms[i].wf(before.next_id));
            lemma_room_wf_grows(before.rooms[i], before.next_id, after.next_id);
        }
    }
    assert forall|a: int, b: int| 0 <= a < b < after.rooms.len() implies (
    #[trigger] after.rooms[a]).room_id != (#[trigger] after.rooms[b]).room_id by {
        assert(before.rooms[a].room_id != before.rooms[b].room_id);
    }
}

/// Taking one participant out of a well-formed room is filtering it out,
/// and leaves the room well-formed.
proof fn lemma_remove_participant(room: RoomView, limit: u64, j: int)
    requires
        room.wf(limit),
        0 <= j < room.participants.len(),
    ensures
        room.without(room.participants[j].connection_id).participants == room.participants.remove(
            j,
        ),
        room.without(room.participants[j].connection_id).wf(limit),
{
    let keep = not_on(room.participants[j].connection_id);
    assert forall|i: int| 0 <= i < room.participants.len() && i != j implies keep(
        #[trigger] room.participants[i],
    ) by {
        if i < j {
            assert(room.participants[i].connection_id != room.participants[j].connection_id);
        } else {
            assert(room.participants[j].connection_id != room.participants[i].connection_id);
        }
    }
    lemma_filter_drops_one(room.participants, keep, j);
    let rest = room.participants.remove(j);
    assert forall|a: int, b: int| 0 <= a < b < rest.len() implies (#[trigger] rest[a]).connection_id
        != (#[trigger] rest[b]).connection_id by {
        let a0 = if a < j {
            a
        } else {
            a + 1
        };
        let b0 = if b < j {
            b
        } else {
            b + 1
        };
        assert(room.participants[a0].connection_id != room.participants[b0].connection_id);
    }
    assert forall|a: int| 0 <= a < rest.len() implies (#[trigger] rest[a]).ids_below(limit) by {
        let a0 = if a < j {
            a
        } else {
            a + 1
        };
        assert(room.participants[a0].ids_below(limit));
    }
}

/// Changing the tap of one producer of a participant is what `with_tap`
/// describes, and keeps the participant's identifiers in order.
proof fn lemma_tap_changed(
    p: ParticipantView,
    q: ParticipantView,
    k: int,
    tap: Option<u64>,
    limit: u64,
)
    requires
        0 <= k < p.producers.len(),
        q.producers.len() == p.producers.len(),
        forall|i: int| 0 <= i < p.producers.len() && i != k ==> q.producers[i] == p.producers[i],
        q.producers[k] == (ProducerView { tap, ..p.producers[k] }),
        q == (ParticipantView { producers: q.producers, ..p }),
        p.ids_below(limit),
        tap is Some ==> tap.unwrap() < limit,
    ensures
        q.producers == with_tap(p.producers, p.producers[k].id, tap),
        q.ids_below(limit),
{
    let target = with_tap(p.producers, p.producers[k].id, tap);
    assert(q.producers =~= target) by {
        assert forall|i: int| 0 <= i < p.producers.len() implies q.producers[i] == target[i] by {
            if i < k {
                assert(p.producers[i].id != p.producers[k].id);
            } else if i > k {
                assert(p.producers[k].id != p.producers[i].id);
            }
        }
    }
    assert forall|i: int| 0 <= i < q.producers.len() implies (#[trigger] q.producers[i]).id
        < limit by {
        assert(p.producers[i].id < limit);
    }
    assert forall|i: int|
        0 <= i < q.producers.len() && q.producers[i].tap is Some implies (
    #[trigger] q.producers[i]).tap.unwrap() < limit by {
        if i != k {
            assert(p.producers[i].tap.unwrap() < limit);
        }
    }
    assert forall|a: int, b: int| 0 <= a < b < q.producers.len() implies (
    #[trigger] q.producers[a]).id != (#[trigger] q.producers[b]).id by {
        assert(p.producers[a].id != p.producers[b].id);
    }
}

impl RoomManager {
    /// A manager without rooms.
    pub fn new() -> (m: RoomManager)
        ensures
            m@ == (ManagerView { rooms: Seq::empty(), next_id: 0 }),
            m@.wf(),
    {
        let m = RoomManager { rooms: Vec::new(), next_id: 0 };
        assert(m@.rooms =~= Seq::empty());
        m
    }

    fn find_room(&self, room_id: &ObjectId) -> (at: Option<usize>)
        requires
            self@.wf(),
        ensures
            at is Some <==> self@.has_room(*room_id),
            at is Some ==> at.unwrap() < self.rooms.len() && self.rooms[at.unwrap() as int].room_id
                == *room_id && self@.room(*room_id) == self@.rooms[at.unwrap() as int],
    {
        let mut i: usize = 0;
        while i < self.rooms.len()
            invariant
                self@.wf(),
                i <= self.rooms.len(),
                forall|k: int| 0 <= k < i ==> (#[trigger] self@.rooms[k]).room_id != *room_id,
            decreases self.rooms.len() - i,
        {
            if self.rooms[i].room_id.same(room_id) {
                proof {
                    assert(self@.rooms[i as int].room_id == *room_id);
                    lemma_room_at(self@, i as int);
                }
                return Some(i);
            }
            i += 1;
        }
        None
    }

    /// Whether a media room exists for `room_id`.
    pub fn has_room(&self, room_id: &ObjectId) -> (b: bool)
        requires
            self@.wf(),
        ensures
            b == self@.has_room(*room_id),
    {
        self.find_room(room_id).is_some()
    }

    /// Creates the media room of `room_id` unless it exists. Returns whether
    /// it was created now; an existing room is left as it is.
    pub fn create_room(&mut self, room_id: ObjectId) -> (created: bool)
        requires
            old(self)@.wf(),
        ensures
            final(self)@.wf(),
            created == !old(self)@.has_room(room_id),
            created ==> final(self)@ == (ManagerView {
                rooms: old(self)@.rooms.push(
                    RoomView { room_id, participants: Seq::empty() },
                ),
                ..old(self)@
            }),
            !created ==> final(self)@ == old(self)@,
            final(self)@.has_room(room_id),
    {
        if self.find_room(&room_id).is_some() {
            return false;
        }
        let room = MediaRoom { room_id, participants: Vec::new() };
        proof {
            assert(room@.participants =~= Seq::empty());
        }
        self.rooms.push(room);
        proof {
            let fresh = RoomView { room_id, participants: Seq::empty() };
            assert(self@.rooms =~= old(self)@.rooms.push(fresh));
            assert(self@.rooms[self@.rooms.len() - 1].room_id == room_id);
            assert forall|i: int, j: int| 0 <= i < j < self@.rooms.len() implies (
            #[trigger] self@.rooms[i]).room_id != (#[trigger] self@.rooms[j]).room_id by {
                if j == self@.rooms.len() - 1 {
                    assert(old(self)@.rooms[i].room_id != room_id);
                } else {
                    assert(old(self)@.rooms[i].room_id != old(self)@.rooms[j].room_id);
                }
            }
        }
        true
    }

    /// Removes the media room of `room_id` with all its participants.
    /// Returns whether it existed: of two calls only the first finds it.
    pub fn remove_room(&mut self, room_id: &ObjectId) -> (existed: bool)
        requires
            old(self)@.wf(),
        ensures
            final(self)@.wf(),
            existed == old(self)@.has_room(*room_id),
            final(self)@ == old(self)@.without_room(*room_id),
            !final(self)@.has_room(*room_id),
    {
        match self.find_room(room_id) {
            None => {
                proof {
                    lemma_filter_keeps_all(self@.rooms, not_room(*room_id));
                }
                false
            },
            Some(at) => {
                self.rooms.remove(at);
                proof {
                    let before = old(self)@.rooms;
                    assert forall|i: int| 0 <= i < before.len() && i != at implies not_room(
                        *room_id,
                    )(#[trigger] before[i]) by {
                        if i < at {
                            assert(before[i].room_id != before[at as int].room_id);
                        } else {
                            assert(before[at as int].room_id != before[i].room_id);
                        }
                    }
                    lemma_filter_drops_one(before, not_room(*room_id), at as int);
                    assert(self@.rooms =~= before.remove(at as int));
                }
                true
            },
        }
    }

    /// Gives the connection a fresh pair of transports in the room and makes
    /// it a participant. A record that the connection already had in the
    /// room is replaced: its transports are returned for closing, and what it
    /// sent and received goes with it.
    pub fn create_transports(
        &mut self,
        room_id: &ObjectId,
        user_id: ObjectId,
        connection_id: &str,
    ) -> (pair: Result<TransportPair, MediaError>)
        requires
            old(self)@.wf(),
        ensures
            final(self)@.wf(),
            forall|r: ObjectId| final(self)@.has_room(r) <==> old(self)@.has_room(r),
            pair == join_result(old(self)@, *room_id, connection_id@),
            pair is Ok ==> final(self)@ == after_join(
                old(self)@,
                *room_id,
                user_id,
                connection_id@,
            ),
            pair is Err ==> final(self)@ == old(self)@,
    {
        let at = match self.find_room(room_id) {
            Some(at) => at,
            None => {
                return Err(MediaError::RoomMissing);
            },
        };
        if self.next_id > u64::MAX - 2 {
            return Err(MediaError::Exhausted);
        }
        let first_id: u64 = self.next_id;
        let ghost room = old(self)@.rooms[at as int];
        let ghost keep = not_on(connection_id@);
        let found = find_participant(&self.rooms[at], connection_id, Ghost(self.next_id));
        let mut replaced_send: Option<u64> = None;
        let mut replaced_recv: Option<u64> = None;
        match found {
            Some(j) => {
                let old_record = self.rooms[at].participants.remove(j);
                replaced_send = Some(old_record.send_transport.id);
                replaced_recv = Some(old_record.recv_transport.id);
                proof {
                    assert forall|i: int| 0 <= i < room.participants.len() && i != j implies keep(
                        #[trigger] room.participants[i],
                    ) by {
                        if i < j {
                            assert(room.participants[i].connection_id
                                != room.participants[j as int].connection_id);
                        } else {
                            assert(room.participants[j as int].connection_id
                                != room.participants[i].connection_id);
                        }
                    }
                    lemma_filter_drops_one(room.participants, keep, j as int);
                    assert(self.rooms[at as int]@.participants =~= room.participants.remove(
                        j as int,
                    ));
                }
            },
            None => {
                proof {
                    lemma_filter_keeps_all(room.participants, keep);
                }
            },
        }
        assert(self.rooms[at as int]@.participants == room.participants.filter(keep));
        let ghost kept = room.participants.filter(keep);
        let record = Participant {
            connection_id: connection_id.to_owned(),
            user_id,
            send_transport: Transport { id: first_id, connected: false },
            recv_transport: Transport { id: first_id + 1, connected: false },
            producers: Vec::new(),
            consumers: Vec::new(),
        };
        proof {
            assert(record@.producers =~= Seq::empty());
            assert(record@ == fresh_participant(connection_id@, user_id, first_id));
        }
        self.rooms[at].participants.push(record);
        self.next_id = first_id + 2;
        proof {
            let fresh = fresh_participant(connection_id@, user_id, first_id);
            let new_room = room.joined(fresh);
            assert(self.rooms[at as int]@.participants =~= kept.push(fresh));
            assert(self.rooms[at as int]@ == new_room);
            let target = old(self)@.after_ids(2).put_room(new_room);
            assert(self@.rooms.len() == target.rooms.len());
            assert forall|i: int| 0 <= i < self@.rooms.len() implies self@.rooms[i]
                == target.rooms[i] by {
                if i != at {
                    assert(self.rooms[i] == old(self).rooms[i]);
                    if i < at {
                        assert(old(self)@.rooms[i].room_id != old(self)@.rooms[at as int].room_id);
                    } else {
                        assert(old(self)@.rooms[at as int].room_id != old(self)@.rooms[i].room_id);
                    }
                }
            }
            assert(self@.rooms =~= target.rooms);
            lemma_same_rooms(old(self)@, self@);
            // the new state is well-formed
            assert forall|i: int| 0 <= i < self@.rooms.len() implies (#[trigger] self@.rooms[i]).wf(
                self@.next_id,
            ) by {
                if i != at {
                    assert(old(self)@.rooms[i].wf(old(self)@.next_id));
                    lemma_room_wf_grows(old(self)@.rooms[i], old(self)@.next_id, self@.next_id);
                } else {
                    lemma_room_wf_grows(room, old(self)@.next_id, self@.next_id);
                    lemma_joined_wf(room, fresh, self@.next_id);
                }
            }
            assert forall|i: int, j: int| 0 <= i < j < self@.rooms.len() implies (
            #[trigger] self@.rooms[i]).room_id != (#[trigger] self@.rooms[j]).room_id by {
                assert(old(self)@.rooms[i].room_id != old(self)@.rooms[j].room_id);
            }
        }
        Ok(TransportPair { send_id: first_id, recv_id: first_id + 1, replaced_send, replaced_recv })
    }

    /// Connects one of the connection's transports. Returns `true` where
    /// the DTLS parameters are to be applied now, `false` where the
    /// transport was connected before and nothing is to be done.
    pub fn connect_transport(
        &mut self,
        room_id: &ObjectId,
        connection_id: &str,
        transport_id: u64,
    ) -> (applied: Result<bool, MediaError>)
        requires
            old(self)@.wf(),
        ensures
            final(self)@.wf(),
            forall|r: ObjectId| final(self)@.has_room(r) <==> old(self)@.has_room(r),
            applied == connect_outcome(old(self)@, *room_id, connection_id@, transport_id),
            applied is Err ==> final(self)@ == old(self)@,
            applied is Ok ==> final(self)@ == old(self)@.put_room(
                old(self)@.room(*room_id).put(
                    with_connected(
                        old(self)@.room(*room_id).participant(connection_id@),
                        transport_id,
                    ),
                ),
            ),
    {
        let at = match self.find_room(room_id) {
            Some(at) => at,
            None => {
                return Err(MediaError::RoomMissing);
            },
        };
        let j = match find_participant(&self.rooms[at], connection_id, Ghost(self.next_id)) {
            Some(j) => j,
            None => {
                return Err(MediaError::TransportMissing);
            },
        };
        let send = self.rooms[at].participants[j].send_transport;
        let recv = self.rooms[at].participants[j].recv_transport;
        let applied: bool;
        if send.id == transport_id {
            applied = !send.connected;
            self.rooms[at].participants[j].send_transport = Transport {
                id: transport_id,
                connected: true,
            };
        } else if recv.id == transport_id {
            applied = !recv.connected;
            self.rooms[at].participants[j].recv_transport = Transport {
                id: transport_id,
                connected: true,
            };
        } else {
            return Err(MediaError::TransportMissing);
        }
        proof {
            let before = old(self)@;
            let p = before.rooms[at as int].participants[j as int];
            assert(self@.rooms[at as int].participants[j as int] == with_connected(
                p,
                transport_id,
            ));
            assert(p.ids_below(before.next_id));
            lemma_put_participant(before, self@, at as int, j as int);
        }
        Ok(applied)
    }

    /// Registers a track that the connection starts to send and returns the
    /// producer's identifier. The connection's send transport must be
    /// connected.
    pub fn produce(
        &mut self,
        room_id: &ObjectId,
        connection_id: &str,
        kind: MediaKind,
        source: Option<String>,
    ) -> (producer_id: Result<u64, MediaError>)
        requires
            old(self)@.wf(),
        ensures
            final(self)@.wf(),
            forall|r: ObjectId| final(self)@.has_room(r) <==> old(self)@.has_room(r),
            producer_id == produce_outcome(old(self)@, *room_id, connection_id@),
            producer_id is Err ==> final(self)@ == old(self)@,
            producer_id is Ok ==> final(self)@ == after_produce(
                old(self)@,
                *room_id,
                connection_id@,
                kind,
                match source {
                    Some(s) => Some(s@),
                    None => None,
                },
            ),
    {
        let at = match self.find_room(room_id) {
            Some(at) => at,
            None => {
                return Err(MediaError::RoomMissing);
            },
        };
        let j = match find_participant(&self.rooms[at], connection_id, Ghost(self.next_id)) {
            Some(j) => j,
            None => {
                return Err(MediaError::TransportMissing);
            },
        };
        if !self.rooms[at].participants[j].send_transport.connected {
            return Err(MediaError::TransportNotConnected);
        }
        if self.next_id == u64::MAX {
            return Err(MediaError::Exhausted);
        }
        let id: u64 = self.next_id;
        let source_text: String = match source {
            Some(s) => s,
            None => match kind {
                MediaKind::Audio => "audio".to_owned(),
                MediaKind::Video => "camera".to_owned(),
            },
        };
        let producer = Producer { id, kind, source: source_text, tap: None };
        let ghost added = producer@;
        self.rooms[at].participants[j].producers.push(producer);
        self.next_id = id + 1;
        proof {
            let before = old(self)@;
            let p = before.rooms[at as int].participants[j as int];
            let q = self@.rooms[at as int].participants[j as int];
            assert(q.producers =~= p.producers.push(added));
            assert(p.ids_below(before.next_id));
            assert(q.ids_below(self@.next_id)) by {
                assert forall|a: int, b: int| 0 <= a < b < q.producers.len() implies (
                #[trigger] q.producers[a]).id != (#[trigger] q.producers[b]).id by {
                    if b < p.producers.len() {
                        assert(p.producers[a].id != p.producers[b].id);
                    } else {
                        assert(p.producers[a].id < before.next_id);
                    }
                }
            }
            lemma_put_participant(before, self@, at as int, j as int);
            assert(self@ == before.after_ids(1).put_room(before.rooms[at as int].put(q)));
        }
        Ok(id)
    }

    /// Registers the connection's reception of a producer and returns the
    /// consumer. The connection's receive transport must be connected, the
    /// producer must exist in the room, and the media engine must have found
    /// a codec that both sides share (`compatible`).
    pub fn consume(
        &mut self,
        room_id: &ObjectId,
        connection_id: &str,
        producer_id: u64,
        compatible: bool,
    ) -> (consumer: Result<Consumer, MediaError>)
        requires
            old(self)@.wf(),
        ensures
            final(self)@.wf(),
            forall|r: ObjectId| final(self)@.has_room(r) <==> old(self)@.has_room(r),
            consumer == consume_outcome(
                old(self)@,
                *room_id,
                connection_id@,
                producer_id,
                compatible,
            ),
            consumer is Err ==> final(self)@ == old(self)@,
            consumer is Ok ==> final(self)@ == after_consume(
                old(self)@,
                *room_id,
                connection_id@,
                consumer.unwrap(),
            ),
    {
        let at = match self.find_room(room_id) {
            Some(at) => at,
            None => {
                return Err(MediaError::RoomMissing);
            },
        };
        let j = match find_participant(&self.rooms[at], connection_id, Ghost(self.next_id)) {
            Some(j) => j,
            None => {
                return Err(MediaError::TransportMissing);
            },
        };
        if !self.rooms[at].participants[j].recv_transport.connected {
            return Err(MediaError::TransportNotConnected);
        }
        let kind = match find_producer(&self.rooms[at], producer_id) {
            Some((i, k)) => self.rooms[at].participants[i].producers[k].kind,
            None => {
                return Err(MediaError::ProducerMissing);
            },
        };
        if !compatible {
            return Err(MediaError::Incompatible);
        }
        if self.next_id == u64::MAX {
            return Err(MediaError::Exhausted);
        }
        let consumer = Consumer { id: self.next_id, producer_id, kind };
        self.rooms[at].participants[j].consumers.push(consumer);
        self.next_id = self.next_id + 1;
        proof {
            let before = old(self)@;
            let p = before.rooms[at as int].participants[j as int];
            let q = self@.rooms[at as int].participants[j as int];
            assert(q.consumers =~= p.consumers.push(consumer));
            assert(q.producers =~= p.producers);
            assert(p.ids_below(before.next_id));
            lemma_put_participant(before, self@, at as int, j as int);
            assert(self@ == before.after_ids(1).put_room(before.rooms[at as int].put(q)));
        }
        Ok(consumer)
    }

    /// Closes a producer of the connection, with its RTP tap. Returns
    /// whether the connection had such a producer.
    pub fn close_producer(&mut self, room_id: &ObjectId, connection_id: &str, producer_id: u64) -> (existed:
        bool)
        requires
            old(self)@.wf(),
        ensures
            final(self)@.wf(),
            forall|r: ObjectId| final(self)@.has_room(r) <==> old(self)@.has_room(r),
            existed == sends_producer(old(self)@, *room_id, connection_id@, producer_id),
            !existed ==> final(self)@ == old(self)@,
            existed ==> final(self)@ == after_close_producer(
                old(self)@,
                *room_id,
                connection_id@,
                producer_id,
            ),
    {
        let at = match self.find_room(room_id) {
            Some(at) => at,
            None => {
                return false;
            },
        };
        let j = match find_participant(&self.rooms[at], connection_id, Ghost(self.next_id)) {
            Some(j) => j,
            None => {
                return false;
            },
        };
        let k = match find_producer_among(&self.rooms[at].participants[j].producers, producer_id) {
            Some(k) => k,
            None => {
                return false;
            },
        };
        self.rooms[at].participants[j].producers.remove(k);
        proof {
            let before = old(self)@;
            let p = before.rooms[at as int].participants[j as int];
            let q = self@.rooms[at as int].participants[j as int];
            let keep = not_producer(producer_id);
            assert(p.ids_below(before.next_id));
            assert forall|i: int| 0 <= i < p.producers.len() && i != k implies keep(
                #[trigger] p.producers[i],
            ) by {
                if i < k {
                    assert(p.producers[i].id != p.producers[k as int].id);
                } else {
                    assert(p.producers[k as int].id != p.producers[i].id);
                }
            }
            lemma_filter_drops_one(p.producers, keep, k as int);
            assert(q.producers =~= p.producers.remove(k as int));
            assert(q.ids_below(self@.next_id)) by {
                assert forall|a: int| 0 <= a < q.producers.len() implies (
                #[trigger] q.producers[a]).id < self@.next_id && (q.producers[a].tap is Some
                    ==> q.producers[a].tap.unwrap() < self@.next_id) by {
                    let a0 = if a < k {
                        a
                    } else {
                        a + 1
                    };
                    assert(p.producers[a0].id < before.next_id);
                    assert(p.producers[a0].tap is Some ==> p.producers[a0].tap.unwrap()
                        < before.next_id);
                }
                assert forall|a: int, b: int| 0 <= a < b < q.producers.len() implies (
                #[trigger] q.producers[a]).id != (#[trigger] q.producers[b]).id by {
                    let a0 = if a < k {
                        a
                    } else {
                        a + 1
                    };
                    let b0 = if b < k {
                        b
                    } else {
                        b + 1
                    };
                    assert(p.producers[a0].id != p.producers[b0].id);
                }
            }
            lemma_put_participant(before, self@, at as int, j as int);
            assert(self@ == before.put_room(before.rooms[at as int].put(q)));
        }
        true
    }

    /// Attaches an RTP tap to a producer and returns its identifier. A
    /// producer has one tap at most: a tap attached before is replaced and
    /// returned for closing.
    pub fn create_rtp_tap(&mut self, room_id: &ObjectId, producer_id: u64) -> (tap: Result<
        RtpTap,
        MediaError,
    >)
        requires
            old(self)@.wf(),
        ensures
            final(self)@.wf(),
            forall|r: ObjectId| final(self)@.has_room(r) <==> old(self)@.has_room(r),
            tap == tap_outcome(old(self)@, *room_id, producer_id),
            tap is Err ==> final(self)@ == old(self)@,
            tap is Ok ==> {
                let room = old(self)@.room(*room_id);
                let owner = producer_owner(room.participants, producer_id).unwrap();
                final(self)@ == old(self)@.after_ids(1).put_room(
                    room.put(
                        ParticipantView {
                            producers: with_tap(
                                owner.producers,
                                producer_id,
                                Some(old(self)@.next_id),
                            ),
                            ..owner
                        },
                    ),
                )
            },
    {
        let at = match self.find_room(room_id) {
            Some(at) => at,
            None => {
                return Err(MediaError::RoomMissing);
            },
        };
        let (j, k) = match find_producer(&self.rooms[at], producer_id) {
            Some(place) => place,
            None => {
                return Err(MediaError::ProducerMissing);
            },
        };
        if self.next_id == u64::MAX {
            return Err(MediaError::Exhausted);
        }
        let id: u64 = self.next_id;
        let replaced = self.rooms[at].participants[j].producers[k].tap;
        self.rooms[at].participants[j].producers[k].tap = Some(id);
        self.next_id = id + 1;
        proof {
            let before = old(self)@;
            let p = before.rooms[at as int].participants[j as int];
            let q = self@.rooms[at as int].participants[j as int];
            assert(p.ids_below(before.next_id));
            lemma_tap_changed(p, q, k as int, Some(id), self@.next_id);
            lemma_put_participant(before, self@, at as int, j as int);
            assert(self@ == before.after_ids(1).put_room(before.rooms[at as int].put(q)));
        }
        Ok(RtpTap { id, replaced })
    }

    /// Detaches the RTP tap of a producer and returns it for closing, if
    /// the producer had one.
    pub fn remove_rtp_tap(&mut self, room_id: &ObjectId, producer_id: u64) -> (tap: Option<u64>)
        requires
            old(self)@.wf(),
        ensures
            final(self)@.wf(),
            forall|r: ObjectId| final(self)@.has_room(r) <==> old(self)@.has_room(r),
            tap == (if old(self)@.has_room(*room_id) {
                match producer_in(old(self)@.room(*room_id).participants, producer_id) {
                    Some(producer) => producer.tap,
                    None => None,
                }
            } else {
                None::<u64>
            }),
            tap is None ==> final(self)@ == old(self)@,
            tap is Some ==> {
                let room = old(self)@.room(*room_id);
                let owner = producer_owner(room.participants, producer_id).unwrap();
                final(self)@ == old(self)@.put_room(
                    room.put(
                        ParticipantView {
                            producers: with_tap(owner.producers, producer_id, None),
                            ..owner
                        },
                    ),
                )
            },
    {
        let at = match self.find_room(room_id) {
            Some(at) => at,
            None => {
                return None;
            },
        };
        let (j, k) = match find_producer(&self.rooms[at], producer_id) {
            Some(place) => place,
            None => {
                return None;
            },
        };
        let tap = self.rooms[at].participants[j].producers[k].tap;
        if tap.is_none() {
            return None;
        }
        self.rooms[at].participants[j].producers[k].tap = None;
        proof {
            let before = old(self)@;
            let p = before.rooms[at as int].participants[j as int];
            let q = self@.rooms[at as int].participants[j as int];
            assert(p.ids_below(before.next_id));
            lemma_tap_changed(p, q, k as int, None, self@.next_id);
            lemma_put_participant(before, self@, at as int, j as int);
            assert(self@ == before.put_room(before.rooms[at as int].put(q)));
        }
        tap
    }

    /// Takes the connection out of the room: its participant record is
    /// removed and returned, so that its transports, producers, taps and
    /// consumers can be closed. `None` where the connection was not in the
    /// room.
    pub fn close_participant(&mut self, room_id: &ObjectId, connection_id: &str) -> (closed:
        Option<Participant>)
        requires
            old(self)@.wf(),
        ensures
            final(self)@.wf(),
            forall|r: ObjectId| final(self)@.has_room(r) <==> old(self)@.has_room(r),
            closed is Some <==> old(self)@.has_room(*room_id) && old(self)@.room(
                *room_id,
            ).has_connection(connection_id@),
            closed is Some ==> closed.unwrap()@ == old(self)@.room(*room_id).participant(
                connection_id@,
            ),
            closed is None ==> final(self)@ == old(self)@,
            closed is Some ==> final(self)@ == old(self)@.put_room(
                old(self)@.room(*room_id).without(connection_id@),
            ),
    {
        let at = match self.find_room(room_id) {
            Some(at) => at,
            None => {
                return None;
            },
        };
        let j = match find_participant(&self.rooms[at], connection_id, Ghost(self.next_id)) {
            Some(j) => j,
            None => {
                return None;
            },
        };
        let record = self.rooms[at].participants.remove(j);
        proof {
            let before = old(self)@;
            let room = before.rooms[at as int];
            lemma_remove_participant(room, before.next_id, j as int);
            assert(self@.rooms[at as int].participants =~= room.participants.remove(j as int));
            assert(self@.rooms[at as int] == room.without(connection_id@));
            lemma_put_room(before, self@, at as int);
        }
        Some(record)
    }

    /// Where the connection stands in joining the room's call; `Fresh`
    /// where the room does not exist or the connection is not in it.
    pub fn join_state(&self, room_id: &ObjectId, connection_id: &str) -> (state: JoinState)
        requires
            self@.wf(),
        ensures
            state == if self@.has_room(*room_id) {
                self@.room(*room_id).join_state(connection_id@)
            } else {
                JoinState::Fresh
            },
    {
        let at = match self.find_room(room_id) {
            Some(at) => at,
            None => {
                return JoinState::Fresh;
            },
        };
        let j = match find_participant(&self.rooms[at], connection_id, Ghost(self.next_id)) {
            Some(j) => j,
            None => {
                return JoinState::Fresh;
            },
        };
        let p = &self.rooms[at].participants[j];
        if p.send_transport.connected && p.recv_transport.connected {
            JoinState::Ready
        } else if p.send_transport.connected {
            JoinState::SendConnected
        } else if p.recv_transport.connected {
            JoinState::RecvConnected
        } else {
            JoinState::TransportsCreated
        }
    }

    /// The connections in the room other than `connection_id`, in joining
    /// order. Empty where the room does not exist.
    pub fn get_other_connection_ids(&self, room_id: &ObjectId, connection_id: &str) -> (others:
        Vec<String>)
        requires
            self@.wf(),
        ensures
            views(others@) == if self@.has_room(*room_id) {
                self@.room(*room_id).other_connections(connection_id@)
            } else {
                Seq::<Seq<char>>::empty()
            },
    {
        let mut others: Vec<String> = Vec::new();
        let at = match self.find_room(room_id) {
            Some(at) => at,
            None => {
                assert(views(others@) =~= Seq::<Seq<char>>::empty());
                return others;
            },
        };
        let room = &self.rooms[at];
        let ghost all = room@.participants;
        let ghost keep = not_on(connection_id@);
        let mut i: usize = 0;
        proof {
            reveal(Seq::filter);
            assert(all.take(0).filter(keep) =~= Seq::<ParticipantView>::empty());
            assert(views(others@) =~= connections_of(all.take(0).filter(keep)));
        }
        while i < room.participants.len()
            invariant
                i <= room.participants.len(),
                all == room@.participants,
                keep == not_on(connection_id@),
                views(others@) == connections_of(all.take(i as int).filter(keep)),
            decreases room.participants.len() - i,
        {
            let ghost before = views(others@);
            proof {
                lemma_filter_take_step(all, keep, i as int);
            }
            if !str_eq(room.participants[i].connection_id.as_str(), connection_id) {
                others.push(room.participants[i].connection_id.clone());
                proof {
                    let kept = all.take(i as int).filter(keep);
                    assert(views(others@) =~= before.push(all[i as int].connection_id));
                    assert(connections_of(kept.push(all[i as int])) =~= connections_of(kept).push(
                        all[i as int].connection_id,
                    ));
                }
            }
            i += 1;
        }
        proof {
            assert(all.take(all.len() as int) =~= all);
        }
        others
    }

    /// The users of the room's participants, one entry per connection, in
    /// joining order. Empty where the room does not exist.
    pub fn get_participant_user_ids(&self, room_id: &ObjectId) -> (users: Vec<ObjectId>)
        requires
            self@.wf(),
        ensures
            users@ == if self@.has_room(*room_id) {
                self@.room(*room_id).participant_users()
            } else {
                Seq::<ObjectId>::empty()
            },
    {
        let mut users: Vec<ObjectId> = Vec::new();
        let at = match self.find_room(room_id) {
            Some(at) => at,
            None => {
                return users;
            },
        };
        let room = &self.rooms[at];
        let mut i: usize = 0;
        while i < room.participants.len()
            invariant
                i <= room.participants.len(),
                users@ == room@.participant_users().take(i as int),
            decreases room.participants.len() - i,
        {
            users.push(room.participants[i].user_id);
            proof {
                assert(users@ =~= room@.participant_users().take(i as int + 1));
            }
            i += 1;
        }
        proof {
            assert(room@.participant_users().take(room.participants.len() as int)
                =~= room@.participant_users());
        }
        users
    }

    /// The room that the connection takes part in, if any.
    pub fn get_connection_room(&self, connection_id: &str) -> (room_id: Option<ObjectId>)
        requires
            self@.wf(),
        ensures
            room_id == self@.connection_room(connection_id@),
    {
        let ghost all = self@;
        let mut i: usize = 0;
        proof {
            assert(all.rooms.skip(0) =~= all.rooms);
        }
        while i < self.rooms.len()
            invariant
                i <= self.rooms.len(),
                all == self@,
                all.wf(),
                all.connection_room(connection_id@) == (ManagerView {
                    rooms: all.rooms.skip(i as int),
                    ..all
                }).connection_room(connection_id@),
            decreases self.rooms.len() - i,
        {
            proof {
                assert(all.rooms.skip(i as int)[0] == all.rooms[i as int]);
                assert(all.rooms.skip(i as int).drop_first() =~= all.rooms.skip(i as int + 1));
                assert(all.rooms[i as int].wf(all.next_id));
            }
            if find_participant(&self.rooms[i], connection_id, Ghost(self.next_id)).is_some() {
                return Some(self.rooms[i].room_id);
            }
            i += 1;
        }
        proof {
            assert(all.rooms.skip(i as int) =~= Seq::<RoomView>::empty());
        }
        None
    }

    /// The producers of the room that a connection is told of when it
    /// joins: all but its own, participant by participant in joining order.
    /// Empty where the room does not exist.
    pub fn producers_visible_to(&self, room_id: &ObjectId, connection_id: &str) -> (producers:
        Vec<ProducerInfo>)
        requires
            self@.wf(),
        ensures
            views(producers@) == if self@.has_room(*room_id) {
                visible_producers(self@.room(*room_id).participants, connection_id@)
            } else {
                Seq::<ProducerInfoView>::empty()
            },
    {
        let mut out: Vec<ProducerInfo> = Vec::new();
        let at = match self.find_room(room_id) {
            Some(at) => at,
            None => {
                assert(views(out@) =~= Seq::<ProducerInfoView>::empty());
                return out;
            },
        };
        let room = &self.rooms[at];
        let ghost all = room@.participants;
        let mut i: usize = 0;
        proof {
            assert(views(out@) =~= visible_producers(all.take(0), connection_id@));
        }
        while i < room.participants.len()
            invariant
                i <= room.participants.len(),
                all == room@.participants,
                views(out@) == visible_producers(all.take(i as int), connection_id@),
            decreases room.participants.len() - i,
        {
            let p = &room.participants[i];
            let ghost before = views(out@);
            proof {
                assert(all.take(i as int + 1).drop_last() =~= all.take(i as int));
                assert(all.take(i as int + 1).last() == all[i as int]);
            }
            if !str_eq(p.connection_id.as_str(), connection_id) {
                let mut k: usize = 0;
                proof {
                    assert(before + announcements(all[i as int]).take(0) =~= before);
                }
                while k < p.producers.len()
                    invariant
                        k <= p.producers.len(),
                        p@ == all[i as int],
                        views(out@) == before + announcements(all[i as int]).take(k as int),
                    decreases p.producers.len() - k,
                {
                    let ghost so_far = views(out@);
                    let info = ProducerInfo {
                        user_id: p.user_id,
                        connection_id: p.connection_id.clone(),
                        producer_id: p.producers[k].id,
                        kind: p.producers[k].kind,
                        source: p.producers[k].source.clone(),
                    };
                    out.push(info);
                    proof {
                        let a = announcements(all[i as int]);
                        assert(info@ == a[k as int]);
                        assert(views(out@) =~= so_far.push(info@));
                        assert(before + a.take(k as int + 1) =~= (before + a.take(k as int)).push(
                            a[k as int],
                        ));
                    }
                    k += 1;
                }
                proof {
                    let a = announcements(all[i as int]);
                    assert(a.take(a.len() as int) =~= a);
                }
            }
            i += 1;
        }
        proof {
            assert(all.take(all.len() as int) =~= all);
        }
        out
    }

    /// Takes every connection of `user_id` out of the room. The
    /// participant records are removed and returned, in joining order, so
    /// that what they hold can be closed.
    pub fn close_participant_by_user(&mut self, room_id: &ObjectId, user_id: &ObjectId) -> (closed:
        Vec<Participant>)
        requires
            old(self)@.wf(),
        ensures
            final(self)@.wf(),
            forall|r: ObjectId| final(self)@.has_room(r) <==> old(self)@.has_room(r),
            final(self)@ == user_left(old(self)@, *room_id, *user_id),
            views(closed@) == if old(self)@.has_room(*room_id) {
                old(self)@.room(*room_id).participants.filter(is_of(*user_id))
            } else {
                Seq::<ParticipantView>::empty()
            },
    {
        let mut closed: Vec<Participant> = Vec::new();
        let at = match self.find_room(room_id) {
            Some(at) => at,
            None => {
                assert(views(closed@) =~= Seq::<ParticipantView>::empty());
                return closed;
            },
        };
        let ghost before = old(self)@;
        let ghost room = before.rooms[at as int];
        let ghost all = room.participants;
        let ghost keep = not_of(*user_id);
        let ghost gone = is_of(*user_id);
        let n = self.rooms[at].participants.len();
        let mut i: usize = 0;
        let mut k: usize = 0;
        proof {
            reveal(Seq::filter);
            assert(all.take(0).filter(keep) =~= Seq::<ParticipantView>::empty());
            assert(all.take(0).filter(gone) =~= Seq::<ParticipantView>::empty());
            assert(views(closed@) =~= Seq::<ParticipantView>::empty());
            assert(all.skip(0) =~= all);
            assert(Seq::<ParticipantView>::empty() + all =~= all);
        }
        // the first `i` records are those kept of the first `k`; behind them
        // stand the records that are still to be looked at
        while k < n
            invariant
                i <= k <= n,
                n == all.len(),
                at < self.rooms.len(),
                self.rooms.len() == old(self).rooms.len(),
                forall|r: int|
                    0 <= r < self.rooms.len() && r != at ==> self.rooms[r] == old(self).rooms[r],
                self.rooms[at as int].room_id == old(self).rooms[at as int].room_id,
                self.next_id == old(self).next_id,
                before == old(self)@,
                room == before.rooms[at as int],
                all == room.participants,
                keep == not_of(*user_id),
                gone == is_of(*user_id),
                self.rooms[at as int].participants.len() == i + (n - k),
                views(self.rooms[at as int].participants@) == all.take(k as int).filter(keep)
                    + all.skip(k as int),
                all.take(k as int).filter(keep).len() == i,
                views(closed@) == all.take(k as int).filter(gone),
            decreases n - k,
        {
            let ghost kept = all.take(k as int).filter(keep);
            let ghost left = views(closed@);
            let ghost current = views(self.rooms[at as int].participants@);
            proof {
                lemma_filter_take_step(all, keep, k as int);
                lemma_filter_take_step(all, gone, k as int);
                assert(current[i as int] == all.skip(k as int)[0]);
                assert(current[i as int] == self.rooms[at as int].participants@[i as int]@);
            }
            if self.rooms[at].participants[i].user_id.same(user_id) {
                let record = self.rooms[at].participants.remove(i);
                closed.push(record);
                proof {
                    assert(views(closed@) =~= left.push(all[k as int]));
                    assert(views(self.rooms[at as int].participants@) =~= current.remove(
                        i as int,
                    ));
                    assert(current.remove(i as int) =~= kept + all.skip(k as int + 1));
                }
            } else {
                proof {
                    assert(current =~= kept.push(all[k as int]) + all.skip(k as int + 1));
                }
                i += 1;
            }
            k += 1;
        }
        proof {
            assert(all.take(n as int) =~= all);
            assert(all.skip(n as int) =~= Seq::<ParticipantView>::empty());
            let rest = all.filter(keep);
            assert(views(self.rooms[at as int].participants@) =~= rest);
            assert(self@.rooms[at as int] == room.without_user(*user_id));
            lemma_filter_is_subsequence(all, keep);
            assert(self@.rooms[at as int].wf(self@.next_id)) by {
                assert forall|a: int| 0 <= a < rest.len() implies (#[trigger] rest[a]).ids_below(
                    self@.next_id,
                ) by {
                    let a0 = filter_source(all, keep, a);
                    assert(all[a0].ids_below(before.next_id));
                }
                assert forall|a: int, b: int| 0 <= a < b < rest.len() implies (
                #[trigger] rest[a]).connection_id != (#[trigger] rest[b]).connection_id by {
                    let a0 = filter_source(all, keep, a);
                    let b0 = filter_source(all, keep, b);
                    assert(all[a0].connection_id != all[b0].connection_id);
                }
            }
            lemma_put_room(before, self@, at as int);
        }
        closed
    }
}

} // verus!
