use crate::ids::{hex_text, ObjectId};
use crate::models::{
    CallState, MemberView, ParticipantRole, ParticipantSession, RoomMember, SessionView,
};
use crate::seqs::views;

use vstd::prelude::*;

verus! {

/// Why a call request was refused.
#[derive(Clone, Copy, Debug, PartialEq, Eq, Structural)]
pub enum CallError {
    /// The room's call has ended; nobody can join it.
    CallEnded,
}

/// How a participant came into the call.
#[derive(Clone, Copy, Debug, PartialEq, Eq, Structural)]
pub enum JoinKind {
    /// The member is in the call already: a further stay was added to the
    /// member's record.
    Appended,
    /// The member had left the call, or never been in it: the member is a
    /// participant again.
    Rejoined,
    /// The user was no member of the room: a member was created.
    Created,
}

/// The call of a room as the server records it: where the call stands,
/// who is a member of the room and who of them is in the call.
#[derive(Debug)]
pub struct RoomCall {
    pub tenant_id: ObjectId,
    pub room_id: ObjectId,
    pub state: CallState,
    pub members: Vec<RoomMember>,
    pub member_count: u32,
    pub participant_count: u32,
    pub actual_start_time: Option<i64>,
    pub actual_end_time: Option<i64>,
}

/// What a [`RoomCall`] holds, as mathematical values.
pub ghost struct CallView {
    pub tenant_id: ObjectId,
    pub room_id: ObjectId,
    pub state: CallState,
    pub members: Seq<MemberView>,
    pub member_count: u32,
    pub participant_count: u32,
    pub actual_start_time: Option<i64>,
    pub actual_end_time: Option<i64>,
}

impl View for RoomCall {
    type V = CallView;

    open spec fn view(&self) -> CallView {
        CallView {
            tenant_id: self.tenant_id,
            room_id: self.room_id,
            state: self.state,
            members: views(self.members@),
            member_count: self.member_count,
            participant_count: self.participant_count,
            actual_start_time: self.actual_start_time,
            actual_end_time: self.actual_end_time,
        }
    }
}

/// `n + 1`, or `n` where it is the largest number.
pub open spec fn bump(n: u32) -> u32 {
    if n < u32::MAX {
        (n + 1) as u32
    } else {
        n
    }
}

/// `n - 1`, or zero where `n` is zero.
pub open spec fn drop_one(n: u32) -> u32 {
    if n > 0 {
        (n - 1) as u32
    } else {
        0
    }
}

/// A stay that begins at `now` on `device`.
pub open spec fn new_session(now: i64, device: Seq<char>) -> SessionView {
    SessionView { joined_at: now, left_at: None, duration: None, device_type: device }
}

/// Whether one of the member's stays is still going on.
pub open spec fn in_call(m: MemberView) -> bool {
    exists|i: int| 0 <= i < m.sessions.len() && (#[trigger] m.sessions[i]).left_at is None
}

/// The member's stays with those that were going on ended at `now`.
pub open spec fn sessions_closed(sessions: Seq<SessionView>, now: i64) -> Seq<SessionView> {
    Seq::new(
        sessions.len(),
        |i: int|
            if sessions[i].left_at is None {
                SessionView { left_at: Some(now), ..sessions[i] }
            } else {
                sessions[i]
            },
    )
}

/// The member that is created for a user who joins a call without being a
/// member of the room.
pub open spec fn created_member(
    tenant_id: ObjectId,
    room_id: ObjectId,
    user_id: ObjectId,
    display_name: Seq<char>,
    device: Seq<char>,
    now: i64,
) -> MemberView {
    MemberView {
        id: None,
        tenant_id,
        room_id,
        user_id: Some(user_id),
        display_name: Some(display_name),
        email: None,
        is_external: false,
        role: Some(ParticipantRole::Attendee),
        sessions: seq![new_session(now, device)],
        joined_at: now,
        last_read_message_id: None,
        last_read_at: None,
        unread_count: 0,
        mention_count: 0,
        notification_override: None,
        is_muted: false,
        is_pinned: false,
        is_video_on: true,
        is_screen_sharing: false,
        is_hand_raised: false,
        total_duration: 0,
        created_at: now,
        updated_at: now,
    }
}

/// The member that is created for a user who joins the room.
pub open spec fn plain_member(tenant_id: ObjectId, room_id: ObjectId, user_id: ObjectId, now: i64)
    -> MemberView {
    MemberView {
        id: None,
        tenant_id,
        room_id,
        user_id: Some(user_id),
        display_name: None,
        email: None,
        is_external: false,
        role: None,
        sessions: Seq::empty(),
        joined_at: now,
        last_read_message_id: None,
        last_read_at: None,
        unread_count: 0,
        mention_count: 0,
        notification_override: None,
        is_muted: false,
        is_pinned: false,
        is_video_on: false,
        is_screen_sharing: false,
        is_hand_raised: false,
        total_duration: 0,
        created_at: now,
        updated_at: now,
    }
}

impl CallView {
    /// Where the first member record of `user` stands, if there is one.
    pub open spec fn position_of(self, user: ObjectId) -> Option<int>
        decreases self.members.len(),
    {
        if self.members.len() == 0 {
            None
        } else {
            let rest = CallView { members: self.members.drop_last(), ..self };
            match rest.position_of(user) {
                Some(i) => Some(i),
                None => if self.members.last().user_id == Some(user) {
                    Some(self.members.len() - 1)
                } else {
                    None
                },
            }
        }
    }

    /// Whether `user` is a member of the room.
    pub open spec fn is_member(self, user: ObjectId) -> bool {
        self.position_of(user) is Some
    }

    /// The call with the member at `i` replaced by `m`.
    pub open spec fn with_member(self, i: int, m: MemberView) -> CallView {
        CallView { members: self.members.update(i, m), ..self }
    }

    /// The call after it was started at `now`: it is in progress. A call
    /// that had ended is started anew.
    pub open spec fn started(self, now: i64) -> CallView {
        CallView { state: CallState::InProgress, actual_start_time: Some(now), ..self }
    }

    /// The call after it was ended at `now`.
    pub open spec fn ended(self, now: i64) -> CallView {
        CallView { state: CallState::Ended, actual_end_time: Some(now), ..self }
    }

    /// How `user` would come into the call, and the call afterwards; or why not.
    pub open spec fn joined(
        self,
        user: ObjectId,
        display_name: Seq<char>,
        device: Seq<char>,
        now: i64,
    ) -> Result<(JoinKind, CallView), CallError> {
        if self.state == CallState::Ended {
            Err(CallError::CallEnded)
        } else {
            match self.position_of(user) {
                Some(i) => {
                    let m = self.members[i];
                    let more = m.sessions.push(new_session(now, device));
                    if in_call(m) {
                        Ok(
                            (
                                JoinKind::Appended,
                                self.with_member(
                                    i,
                                    MemberView { sessions: more, updated_at: now, ..m },
                                ),
                            ),
                        )
                    } else {
                        Ok(
                            (
                                JoinKind::Rejoined,
                                CallView {
                                    participant_count: bump(self.participant_count),
                                    ..self.with_member(
                                        i,
                                        MemberView {
                                            sessions: more,
                                            updated_at: now,
                                            display_name: Some(display_name),
                                            role: Some(ParticipantRole::Attendee),
                                            is_video_on: true,
                                            ..m
                                        },
                                    )
                                },
                            ),
                        )
                    }
                },
                None => Ok(
                    (
                        JoinKind::Created,
                        CallView {
                            members: self.members.push(
                                created_member(
                                    self.tenant_id,
                                    self.room_id,
                                    user,
                                    display_name,
                                    device,
                                    now,
                                ),
                            ),
                            member_count: bump(self.member_count),
                            participant_count: bump(self.participant_count),
                            ..self
                        },
                    ),
                ),
            }
        }
    }

    /// The call after `user` left it at `now`: the stays of the user that
    /// were going on have ended, and there is one participant less.
    pub open spec fn left(self, user: ObjectId, now: i64) -> CallView {
        let counted = CallView { participant_count: drop_one(self.participant_count), ..self };
        match self.position_of(user) {
            Some(i) => {
                let m = self.members[i];
                counted.with_member(
                    i,
                    MemberView { sessions: sessions_closed(m.sessions, now), updated_at: now, ..m },
                )
            },
            None => counted,
        }
    }

    /// The users of the members, in order; members without a user are passed over.
    pub open spec fn member_users(self) -> Seq<ObjectId>
        decreases self.members.len(),
    {
        if self.members.len() == 0 {
            Seq::empty()
        } else {
            let rest = CallView { members: self.members.drop_last(), ..self }.member_users();
            match self.members.last().user_id {
                Some(u) => rest.push(u),
                None => rest,
            }
        }
    }

    /// The name under which `user` speaks: the display name on record, or
    /// the first eight digits of the user's identifier.
    pub open spec fn participant_name(self, user: ObjectId) -> Seq<char> {
        match self.position_of(user) {
            Some(i) => match self.members[i].display_name {
                Some(name) => name,
                None => hex_text(user@, 24).take(8),
            },
            None => hex_text(user@, 24).take(8),
        }
    }
}

/// Where a member record of a user stands is a place in the list, and the
/// record there is the user's.
pub proof fn lemma_position(c: CallView, user: ObjectId)
    ensures
        c.position_of(user) is Some ==> 0 <= c.position_of(user).unwrap() < c.members.len()
            && c.members[c.position_of(user).unwrap()].user_id == Some(user),
        c.position_of(user) is None ==> forall|k: int|
            0 <= k < c.members.len() ==> (#[trigger] c.members[k]).user_id != Some(user),
    decreases c.members.len(),
{
    if c.members.len() > 0 {
        let rest = CallView { members: c.members.drop_last(), ..c };
        lemma_position(rest, user);
        if c.position_of(user) is None {
            assert forall|k: int| 0 <= k < c.members.len() implies (
            #[trigger] c.members[k]).user_id != Some(user) by {
                if k < c.members.len() - 1 {
                    assert(rest.members[k] == c.members[k]);
                }
            }
        }
    }
}

impl RoomCall {
    /// The record of a room without members and without a call.
    pub fn new(tenant_id: ObjectId, room_id: ObjectId) -> (call: RoomCall)
        ensures
            call@ == (CallView {
                tenant_id,
                room_id,
                state: CallState::Idle,
                members: Seq::empty(),
                member_count: 0,
                participant_count: 0,
                actual_start_time: None,
                actual_end_time: None,
            }),
    {
        let call = RoomCall {
            tenant_id,
            room_id,
            state: CallState::Idle,
            members: Vec::new(),
            member_count: 0,
            participant_count: 0,
            actual_start_time: None,
            actual_end_time: None,
        };
        proof {
            assert(call@.members =~= Seq::empty());
        }
        call
    }

    fn find(&self, user_id: &ObjectId) -> (at: Option<usize>)
        ensures
            at is Some <==> self@.position_of(*user_id) is Some,
            at is Some ==> at.unwrap() == self@.position_of(*user_id).unwrap() && at.unwrap()
                < self.members.len(),
    {
        let ghost all = self@;
        let mut i: usize = 0;
        proof {
            assert(all.members.take(0) =~= Seq::<MemberView>::empty());
        }
        while i < self.members.len()
            invariant
                i <= self.members.len(),
                all == self@,
                (CallView { members: all.members.take(i as int), ..all }).position_of(*user_id)
                    is None,
            decreases self.members.len() - i,
        {
            proof {
                assert(all.members.take(i as int + 1).drop_last() =~= all.members.take(i as int));
                assert(all.members.take(i as int + 1).last() == self.members@[i as int]@);
            }
            let found = match &self.members[i].user_id {
                Some(u) => u.same(user_id),
                None => false,
            };
            if found {
                proof {
                    lemma_position_extends(all, *user_id, i as int + 1);
                }
                return Some(i);
            }
            i += 1;
        }
        proof {
            assert(all.members.take(all.members.len() as int) =~= all.members);
        }
        None
    }

    /// Whether `user_id` is a member of the room.
    pub fn is_member(&self, user_id: &ObjectId) -> (b: bool)
        ensures
            b == self@.is_member(*user_id),
    {
        self.find(user_id).is_some()
    }

    /// The users of the members of the room, in order.
    pub fn find_member_user_ids(&self) -> (users: Vec<ObjectId>)
        ensures
            users@ == self@.member_users(),
    {
        let ghost all = self@;
        let mut users: Vec<ObjectId> = Vec::new();
        let mut i: usize = 0;
        proof {
            assert(all.members.take(0) =~= Seq::<MemberView>::empty());
        }
        while i < self.members.len()
            invariant
                i <= self.members.len(),
                all == self@,
                users@ == (CallView {
                    members: all.members.take(i as int),
                    ..all
                }).member_users(),
            decreases self.members.len() - i,
        {
            proof {
                assert(all.members.take(i as int + 1).drop_last() =~= all.members.take(i as int));
                assert(all.members.take(i as int + 1).last() == self.members@[i as int]@);
            }
            match self.members[i].user_id {
                Some(u) => {
                    users.push(u);
                },
                None => {},
            }
            i += 1;
        }
        proof {
            assert(all.members.take(all.members.len() as int) =~= all.members);
        }
        users
    }

    /// Starts the room's call. A call that had ended is started anew.
    pub fn start_call(&mut self, now: i64)
        ensures
            final(self)@ == old(self)@.started(now),
            final(self)@.state == CallState::InProgress,
    {
        self.state = CallState::InProgress;
        self.actual_start_time = Some(now);
    }

    /// Ends the room's call.
    pub fn end_call(&mut self, now: i64)
        ensures
            final(self)@ == old(self)@.ended(now),
            final(self)@.state == CallState::Ended,
    {
        self.state = CallState::Ended;
        self.actual_end_time = Some(now);
    }

    /// Makes `user_id` a member of the room. Returns `false` and changes
    /// nothing where the user is a member already.
    pub fn join(&mut self, user_id: ObjectId, now: i64) -> (joined: bool)
        ensures
            joined == !old(self)@.is_member(user_id),
            !joined ==> final(self)@ == old(self)@,
            joined ==> final(self)@ == (CallView {
                members: old(self)@.members.push(
                    plain_member(old(self)@.tenant_id, old(self)@.room_id, user_id, now),
                ),
                member_count: bump(old(self)@.member_count),
                ..old(self)@
            }),
    {
        if self.find(&user_id).is_some() {
            return false;
        }
        let member = RoomMember {
            id: None,
            tenant_id: self.tenant_id,
            room_id: self.room_id,
            user_id: Some(user_id),
            display_name: None,
            email: None,
            is_external: false,
            role: None,
            sessions: Vec::new(),
            joined_at: now,
            last_read_message_id: None,
            last_read_at: None,
            unread_count: 0,
            mention_count: 0,
            notification_override: None,
            is_muted: false,
            is_pinned: false,
            is_video_on: false,
            is_screen_sharing: false,
            is_hand_raised: false,
            total_duration: 0,
            created_at: now,
            updated_at: now,
        };
        proof {
            assert(member@.sessions =~= Seq::empty());
        }
        let ghost view = member@;
        self.members.push(member);
        if self.member_count < u32::MAX {
            self.member_count = self.member_count + 1;
        }
        proof {
            assert(self@.members =~= old(self)@.members.push(view));
        }
        true
    }

    /// Ends the membership of `user_id` in the room. Returns `false` and
    /// changes nothing where the user is no member.
    pub fn leave(&mut self, user_id: &ObjectId) -> (left: bool)
        ensures
            left == old(self)@.is_member(*user_id),
            !left ==> final(self)@ == old(self)@,
            left ==> final(self)@ == (CallView {
                members: old(self)@.members.remove(old(self)@.position_of(*user_id).unwrap()),
                member_count: drop_one(old(self)@.member_count),
                ..old(self)@
            }),
    {
        let ghost before = old(self)@;
        match self.find(user_id) {
            None => false,
            Some(i) => {
                proof {
                    lemma_position(before, *user_id);
                }
                self.members.remove(i);
                if self.member_count > 0 {
                    self.member_count = self.member_count - 1;
                }
                proof {
                    assert(self@.members =~= before.members.remove(i as int));
                }
                true
            },
        }
    }

    /// Brings `user_id` into the room's call. A member who is in the call
    /// already gets a further stay on the same record, not a second
    /// record; a member who is not in the call becomes a participant; a
    /// user who is no member is made one. Nobody joins a call that has
    /// ended.
    pub fn join_participant(
        &mut self,
        user_id: ObjectId,
        display_name: String,
        device_type: String,
        now: i64,
    ) -> (joined: Result<JoinKind, CallError>)
        ensures
            match (joined, old(self)@.joined(user_id, display_name@, device_type@, now)) {
                (Ok(kind), Ok((expected, after))) => kind == expected && final(self)@ == after,
                (Err(e), Err(expected)) => e == expected && final(self)@ == old(self)@,
                _ => false,
            },
    {
        match self.state {
            CallState::Ended => {
                return Err(CallError::CallEnded);
            },
            _ => {},
        }
        let session = ParticipantSession {
            joined_at: now,
            left_at: None,
            duration: None,
            device_type,
        };
        let ghost before = old(self)@;
        match self.find(&user_id) {
            Some(i) => {
                proof {
                    lemma_position(before, user_id);
                }
                let open = has_open_session(&self.members[i]);
                self.members[i].sessions.push(session);
                self.members[i].updated_at = now;
                if open {
                    proof {
                        let m = before.members[i as int];
                        let more = m.sessions.push(new_session(now, device_type@));
                        assert(self.members@[i as int]@.sessions =~= more);
                        assert(self@.members =~= before.members.update(
                            i as int,
                            MemberView { sessions: more, updated_at: now, ..m },
                        ));
                    }
                    Ok(JoinKind::Appended)
                } else {
                    self.members[i].display_name = Some(display_name);
                    self.members[i].role = Some(ParticipantRole::Attendee);
                    self.members[i].is_video_on = true;
                    if self.participant_count < u32::MAX {
                        self.participant_count = self.participant_count + 1;
                    }
                    proof {
                        let m = before.members[i as int];
                        let more = m.sessions.push(new_session(now, device_type@));
                        assert(self.members@[i as int]@.sessions =~= more);
                        assert(self@.members =~= before.members.update(
                            i as int,
                            MemberView {
                                sessions: more,
                                updated_at: now,
                                display_name: Some(display_name@),
                                role: Some(ParticipantRole::Attendee),
                                is_video_on: true,
                                ..m
                            },
                        ));
                    }
                    Ok(JoinKind::Rejoined)
                }
            },
            None => {
                let mut sessions: Vec<ParticipantSession> = Vec::new();
                sessions.push(session);
                let member = RoomMember {
                    id: None,
                    tenant_id: self.tenant_id,
                    room_id: self.room_id,
                    user_id: Some(user_id),
                    display_name: Some(display_name),
                    email: None,
                    is_external: false,
                    role: Some(ParticipantRole::Attendee),
                    sessions,
                    joined_at: now,
                    last_read_message_id: None,
                    last_read_at: None,
                    unread_count: 0,
                    mention_count: 0,
                    notification_override: None,
                    is_muted: false,
                    is_pinned: false,
                    is_video_on: true,
                    is_screen_sharing: false,
                    is_hand_raised: false,
                    total_duration: 0,
                    created_at: now,
                    updated_at: now,
                };
                proof {
                    assert(member@.sessions =~= seq![new_session(now, device_type@)]);
                }
                let ghost view = member@;
                self.members.push(member);
                if self.member_count < u32::MAX {
                    self.member_count = self.member_count + 1;
                }
                if self.participant_count < u32::MAX {
                    self.participant_count = self.participant_count + 1;
                }
                proof {
                    assert(self@.members =~= before.members.push(view));
                }
                Ok(JoinKind::Created)
            },
        }
    }

    /// Takes `user_id` out of the room's call: the stays of the user that
    /// were going on end at `now`.
    pub fn leave_participant(&mut self, user_id: &ObjectId, now: i64) -> (done: bool)
        ensures
            done,
            final(self)@ == old(self)@.left(*user_id, now),
    {
        let ghost before = old(self)@;
        let found = self.find(user_id);
        if self.participant_count > 0 {
            self.participant_count = self.participant_count - 1;
        }
        match found {
            Some(i) => {
                proof {
                    lemma_position(before, *user_id);
                }
                let ghost sessions = before.members[i as int].sessions;
                let n = self.members[i].sessions.len();
                let mut k: usize = 0;
                while k < n
                    invariant
                        k <= n,
                        i < self.members.len(),
                        before == old(self)@,
                        sessions == before.members[i as int].sessions,
                        self.members.len() == old(self).members.len(),
                        n == self.members[i as int].sessions.len(),
                        n == sessions.len(),
                        forall|j: int|
                            0 <= j < self.members.len() && j != i ==> self.members[j] == old(
                                self,
                            ).members[j],
                        self.members[i as int]@ == (MemberView {
                            sessions: self.members[i as int]@.sessions,
                            ..before.members[i as int]
                        }),
                        forall|x: int|
                            0 <= x < k ==> self.members[i as int]@.sessions[x] == sessions_closed(
                                sessions,
                                now,
                            )[x],
                        forall|x: int|
                            k <= x < n ==> self.members[i as int]@.sessions[x] == sessions[x],
                        self.tenant_id == old(self).tenant_id,
                        self.room_id == old(self).room_id,
                        self.state == old(self).state,
                        self.member_count == old(self).member_count,
                        self.participant_count == drop_one(old(self).participant_count),
                        self.actual_start_time == old(self).actual_start_time,
                        self.actual_end_time == old(self).actual_end_time,
                    decreases n - k,
                {
                    if self.members[i].sessions[k].left_at.is_none() {
                        self.members[i].sessions[k].left_at = Some(now);
                    }
                    k += 1;
                }
                self.members[i].updated_at = now;
                proof {
                    let m = before.members[i as int];
                    assert(self.members@[i as int]@.sessions =~= sessions_closed(sessions, now));
                    assert forall|j: int| 0 <= j < self@.members.len() && j != i implies self@.members[j]
                        == before.members[j] by {
                        assert(self.members[j] == old(self).members[j]);
                    }
                    assert(self@.members =~= before.members.update(
                        i as int,
                        MemberView {
                            sessions: sessions_closed(m.sessions, now),
                            updated_at: now,
                            ..m
                        },
                    ));
                }
            },
            None => {
                proof {
                    assert(self@.members =~= before.members);
                }
            },
        }
        true
    }

    /// The name under which `user_id` speaks in the room.
    pub fn find_participant_name(&self, user_id: &ObjectId) -> (name: String)
        ensures
            name@ == self@.participant_name(*user_id),
    {
        match self.find(user_id) {
            Some(i) => {
                match &self.members[i].display_name {
                    Some(name) => {
                        return name.clone();
                    },
                    None => {},
                }
            },
            None => {},
        }
        user_id.short_hex()
    }

    /// Where the members who are in the call stand in the list of members.
    pub fn list_participants(&self) -> (places: Vec<usize>)
        ensures
            forall|k: int|
                0 <= k < places@.len() ==> (#[trigger] places@[k]) < self.members.len() && in_call(
                    self@.members[places@[k] as int],
                ),
            forall|i: int|
                0 <= i < self.members.len() && in_call(self@.members[i]) ==> places@.contains(
                    i as usize,
                ),
            forall|a: int, b: int| 0 <= a < b < places@.len() ==> places@[a] < places@[b],
    {
        let mut places: Vec<usize> = Vec::new();
        let mut i: usize = 0;
        while i < self.members.len()
            invariant
                i <= self.members.len(),
                forall|k: int|
                    0 <= k < places@.len() ==> (#[trigger] places@[k]) < i && in_call(
                        self@.members[places@[k] as int],
                    ),
                forall|x: int|
                    0 <= x < i && in_call(self@.members[x]) ==> places@.contains(x as usize),
                forall|a: int, b: int| 0 <= a < b < places@.len() ==> places@[a] < places@[b],
            decreases self.members.len() - i,
        {
            let ghost before = places@;
            if has_open_session(&self.members[i]) {
                places.push(i);
                proof {
                    assert(places@[places@.len() - 1] == i);
                    assert forall|x: int|
                        0 <= x < i + 1 && in_call(self@.members[x]) implies places@.contains(
                        x as usize,
                    ) by {
                        if x < i {
                            let k = choose|k: int| 0 <= k < before.len() && before[k] == x as usize;
                            assert(places@[k] == x as usize);
                        }
                    }
                }
            }
            i += 1;
        }
        places
    }
}

/// Whether one of the member's stays is still going on.
pub fn has_open_session(member: &RoomMember) -> (open: bool)
    ensures
        open == in_call(member@),
{
    let mut i: usize = 0;
    while i < member.sessions.len()
        invariant
            i <= member.sessions.len(),
            forall|k: int| 0 <= k < i ==> (#[trigger] member@.sessions[k]).left_at is Some,
        decreases member.sessions.len() - i,
    {
        if member.sessions[i].left_at.is_none() {
            assert(member@.sessions[i as int].left_at is None);
            return true;
        }
        i += 1;
    }
    false
}

/// A member record found among the first `n` members is the user's first.
proof fn lemma_position_extends(c: CallView, user: ObjectId, n: int)
    requires
        0 < n <= c.members.len(),
        (CallView { members: c.members.take(n - 1), ..c }).position_of(user) is None,
        c.members[n - 1].user_id == Some(user),
    ensures
        c.position_of(user) == Some(n - 1),
    decreases c.members.len() - n,
{
    let head = CallView { members: c.members.take(n), ..c };
    assert(head.members.drop_last() =~= c.members.take(n - 1));
    assert(head.position_of(user) == Some(n - 1));
    lemma_position_stable(c, user, n);
}

/// A member record found among the first `n` members is found in the whole list.
proof fn lemma_position_stable(c: CallView, user: ObjectId, n: int)
    requires
        0 <= n <= c.members.len(),
        (CallView { members: c.members.take(n), ..c }).position_of(user) is Some,
    ensures
        c.position_of(user) == (CallView { members: c.members.take(n), ..c }).position_of(user),
    decreases c.members.len() - n,
{
    if n < c.members.len() {
        let next = CallView { members: c.members.take(n + 1), ..c };
        assert(next.members.drop_last() =~= c.members.take(n));
        lemma_position_stable(c, user, n + 1);
    } else {
        assert(c.members.take(n) =~= c.members);
    }
}

/// Starting a call and ending it leaves the room's call ended; nobody
/// joins it then; and a call that has ended can be started anew: it is in
/// progress again.
pub proof fn lemma_call_lifecycle(
    c: CallView,
    user: ObjectId,
    display_name: Seq<char>,
    device: Seq<char>,
    t1: i64,
    t2: i64,
    t3: i64,
)
    ensures
        c.started(t1).state == CallState::InProgress,
        c.started(t1).ended(t2).state == CallState::Ended,
        c.started(t1).ended(t2).joined(user, display_name, device, t3) is Err,
        c.started(t1).ended(t2).started(t3).state == CallState::InProgress,
        c.started(t1).ended(t2).started(t3).joined(user, display_name, device, t3) is Ok,
{
}

} // verus!
