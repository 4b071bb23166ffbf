use crate::dispatcher::{recipients_except, users_except};
use crate::events::{to_user_targets, Delivery, DeliveryView, EventView, OutboundEvent, Target};
use crate::handler::{for_user, for_users};
use crate::ids::ObjectId;
use crate::media::{is_of, user_left, ManagerView, Participant, ParticipantView, RoomManager};
use crate::membership::{CallError, JoinKind, RoomCall};
use crate::models::CallState;
use crate::seqs::views;
use vstd::prelude::*;

verus! {

/// The users of `users`, each once, in the order of their first appearance.
pub open spec fn distinct_of(users: Seq<ObjectId>) -> Seq<ObjectId>
    decreases users.len(),
{
    if users.len() == 0 {
        Seq::empty()
    } else {
        let before = distinct_of(users.drop_last());
        if before.contains(users.last()) {
            before
        } else {
            before.push(users.last())
        }
    }
}

/// The users of `users`, each once, in the order of their first appearance.
pub fn distinct(users: &Vec<ObjectId>) -> (once: Vec<ObjectId>)
    ensures
        once@ == distinct_of(users@),
{
    let mut once: Vec<ObjectId> = Vec::new();
    let mut i: usize = 0;
    proof {
        assert(users@.take(0) =~= Seq::<ObjectId>::empty());
    }
    while i < users.len()
        invariant
            i <= users.len(),
            once@ == distinct_of(users@.take(i as int)),
        decreases users.len() - i,
    {
        let user = users[i];
        proof {
            assert(users@.take(i as int + 1).drop_last() =~= users@.take(i as int));
        }
        let mut seen = false;
        let mut k: usize = 0;
        while k < once.len()
            invariant
                k <= once.len(),
                seen == exists|j: int| 0 <= j < k && once@[j] == user,
            decreases once.len() - k,
        {
            if once[k].same(&user) {
                seen = true;
            }
            k += 1;
        }
        if !seen {
            once.push(user);
        }
        i += 1;
    }
    proof {
        assert(users@.take(users@.len() as int) =~= users@);
    }
    once
}

/// An event for all connections of several users, where there are any.
pub open spec fn to_users(users: Seq<ObjectId>, event: EventView) -> Seq<DeliveryView> {
    if users.len() > 0 {
        seq![for_users(users, event)]
    } else {
        Seq::empty()
    }
}

fn users_delivery(users: &Vec<ObjectId>, event: OutboundEvent) -> (deliveries: Vec<Delivery>)
    ensures
        views(deliveries@) == to_users(users@, event@),
{
    let mut deliveries: Vec<Delivery> = Vec::new();
    if users.len() > 0 {
        let d = Delivery { targets: to_user_targets(users), event };
        let ghost view = d@;
        deliveries.push(d);
        proof {
            assert(views(deliveries@) =~= seq![view]);
        }
    } else {
        proof {
            assert(views(deliveries@) =~= Seq::<DeliveryView>::empty());
        }
    }
    deliveries
}

/// A posted or changed message goes to every member of the room but its
/// sender, who has it already.
pub fn message_saved(created: bool, message: String, members: &Vec<ObjectId>, sender: &ObjectId) -> (d:
    Delivery)
    ensures
        d@ == for_users(
            users_except(members@, *sender),
            EventView::MessageSaved { created, message: message@ },
        ),
        !users_except(members@, *sender).contains(*sender),
{
    let recipients = recipients_except(members, sender);
    Delivery {
        targets: to_user_targets(&recipients),
        event: OutboundEvent::MessageSaved { created, message },
    }
}

/// The deletion of a message goes to every member of the room but the one who deleted it.
pub fn message_deleted(id: &str, room_id: &str, members: &Vec<ObjectId>, sender: &ObjectId) -> (d:
    Delivery)
    ensures
        d@ == for_users(
            users_except(members@, *sender),
            EventView::MessageDeleted { id: id@, room_id: room_id@ },
        ),
        !users_except(members@, *sender).contains(*sender),
{
    let recipients = recipients_except(members, sender);
    Delivery {
        targets: to_user_targets(&recipients),
        event: OutboundEvent::MessageDeleted { id: id.to_owned(), room_id: room_id.to_owned() },
    }
}

/// The pinning or unpinning of a message goes to every member of the room.
pub fn message_pinned(message_id: &str, room_id: &str, pinned: bool, members: &Vec<ObjectId>) -> (d:
    Delivery)
    ensures
        d@ == for_users(
            members@,
            EventView::MessagePinned { message_id: message_id@, room_id: room_id@, pinned },
        ),
{
    Delivery {
        targets: to_user_targets(members),
        event: OutboundEvent::MessagePinned {
            message_id: message_id.to_owned(),
            room_id: room_id.to_owned(),
            pinned,
        },
    }
}

/// A chat message written in a call goes to every member of the room.
pub fn call_message_created(message: String, members: &Vec<ObjectId>) -> (deliveries: Vec<
    Delivery,
>)
    ensures
        views(deliveries@) == to_users(
            members@,
            EventView::CallMessageCreated { message: message@ },
        ),
{
    users_delivery(members, OutboundEvent::CallMessageCreated { message })
}

/// A new notification goes to the user it is for.
pub fn notification_new(
    user_id: ObjectId,
    id: String,
    title: String,
    body: String,
    link: Option<String>,
    created_at: String,
) -> (d: Delivery)
    ensures
        d@ == for_user(
            user_id,
            EventView::NotificationNew {
                id: id@,
                title: title@,
                body: body@,
                link: crate::text::opt_text(link),
                created_at: created_at@,
            },
        ),
{
    let mut targets: Vec<Target> = Vec::new();
    targets.push(Target::User(user_id));
    let d = Delivery {
        targets,
        event: OutboundEvent::NotificationNew { id, title, body, link, created_at },
    };
    proof {
        assert(d@.targets =~= seq![crate::events::TargetView::User(user_id)]);
    }
    d
}

/// What starting a call decided.
#[derive(Debug)]
pub struct CallStartOutcome {
    /// Whether the room's media room was created now; a router is to be
    /// created for it in the media engine.
    pub created: bool,
    pub deliveries: Vec<Delivery>,
}

/// Starts the call of a room: the call is in progress, the room's media
/// room exists, and the members of the room are told who started it. A
/// call that had ended is started anew, with a fresh media room.
pub fn handle_call_start(
    rooms: &mut RoomManager,
    call: &mut RoomCall,
    room_name: &str,
    started_by: ObjectId,
    now: i64,
    members: &Vec<ObjectId>,
) -> (outcome: CallStartOutcome)
    requires
        old(rooms)@.wf(),
    ensures
        final(rooms)@.wf(),
        final(call)@ == old(call)@.started(now),
        final(call)@.state == CallState::InProgress,
        outcome.created == !old(rooms)@.has_room(old(call)@.room_id),
        final(rooms)@.has_room(old(call)@.room_id),
        outcome.created ==> final(rooms)@ == crate::media::with_fresh_room(
            old(rooms)@,
            old(call)@.room_id,
        ),
        !outcome.created ==> final(rooms)@ == old(rooms)@,
        views(outcome.deliveries@) == to_users(
            members@,
            EventView::CallStarted {
                room_id: old(call)@.room_id,
                room_name: room_name@,
                started_by,
            },
        ),
{
    call.start_call(now);
    let created = rooms.create_room(call.room_id);
    let deliveries = users_delivery(
        members,
        OutboundEvent::CallStarted {
            room_id: call.room_id,
            room_name: room_name.to_owned(),
            started_by,
        },
    );
    CallStartOutcome { created, deliveries }
}

/// Brings a user into the call of a room and tells the members of the
/// room how many participants the call has now. Nobody joins a call that
/// has ended.
pub fn handle_call_join(
    call: &mut RoomCall,
    user_id: ObjectId,
    display_name: String,
    device_type: String,
    now: i64,
    members: &Vec<ObjectId>,
) -> (joined: Result<(JoinKind, Vec<Delivery>), CallError>)
    ensures
        match (joined, old(call)@.joined(user_id, display_name@, device_type@, now)) {
            (Ok((kind, deliveries)), Ok((expected, after))) => {
                &&& kind == expected
                &&& final(call)@ == after
                &&& views(deliveries@) == to_users(
                    members@,
                    EventView::CallUpdated {
                        room_id: after.room_id,
                        participant_count: after.participant_count,
                    },
                )
            },
            (Err(e), Err(expected)) => e == expected && final(call)@ == old(call)@,
            _ => false,
        },
{
    match call.join_participant(user_id, display_name, device_type, now) {
        Err(e) => Err(e),
        Ok(kind) => {
            let deliveries = users_delivery(
                members,
                OutboundEvent::CallUpdated {
                    room_id: call.room_id,
                    participant_count: call.participant_count,
                },
            );
            Ok((kind, deliveries))
        },
    }
}

/// The users of the participants of a room, each once.
pub open spec fn users_in(m: ManagerView, room_id: ObjectId) -> Seq<ObjectId> {
    if m.has_room(room_id) {
        distinct_of(m.room(room_id).participant_users())
    } else {
        Seq::empty()
    }
}

/// What leaving a call with all connections decided.
#[derive(Debug)]
pub struct CallLeaveOutcome {
    /// The participant records that were removed; what they hold is to be
    /// closed in the media engine.
    pub closed: Vec<Participant>,
    pub deliveries: Vec<Delivery>,
}

/// Takes a user out of the call of a room with all connections: the
/// user's participant records are removed, those who remain in the call
/// are told, and the user's stays in the call end.
pub fn handle_call_leave(
    rooms: &mut RoomManager,
    call: &mut RoomCall,
    user_id: ObjectId,
    now: i64,
) -> (outcome: CallLeaveOutcome)
    requires
        old(rooms)@.wf(),
    ensures
        final(rooms)@.wf(),
        final(rooms)@ == user_left(old(rooms)@, old(call)@.room_id, user_id),
        views(outcome.closed@) == if old(rooms)@.has_room(old(call)@.room_id) {
            old(rooms)@.room(old(call)@.room_id).participants.filter(is_of(user_id))
        } else {
            Seq::<ParticipantView>::empty()
        },
        final(call)@ == old(call)@.left(user_id, now),
        views(outcome.deliveries@) == to_users(
            users_in(final(rooms)@, old(call)@.room_id),
            EventView::UserLeft { user_id, room_id: old(call)@.room_id },
        ),
{
    let room_id = call.room_id;
    let closed = rooms.close_participant_by_user(&room_id, &user_id);
    let remaining = distinct(&rooms.get_participant_user_ids(&room_id));
    let deliveries = users_delivery(&remaining, OutboundEvent::UserLeft { user_id, room_id });
    call.leave_participant(&user_id, now);
    CallLeaveOutcome { closed, deliveries }
}

/// What ending a call decided.
#[derive(Debug)]
pub struct CallEndOutcome {
    /// Whether the room had a media room; its router is to be closed.
    pub removed: bool,
    pub deliveries: Vec<Delivery>,
}

/// What ending a call sends: the users who were in the call are told that
/// the media room is closed, and the members of the room that the call has
/// ended.
pub open spec fn call_ended_spec(
    participants: Seq<ObjectId>,
    members: Seq<ObjectId>,
    room_id: ObjectId,
) -> Seq<DeliveryView> {
    to_users(participants, EventView::RoomClosed { room_id }) + to_users(
        members,
        EventView::CallEnded { room_id },
    )
}

/// Ends the call of a room: the call has ended, the room's media room is
/// removed with all its participants, those who were in the call are told
/// that it is closed, and the members of the room that the call has ended.
pub fn handle_call_end(rooms: &mut RoomManager, call: &mut RoomCall, now: i64, members: &Vec<ObjectId>) -> (outcome:
    CallEndOutcome)
    requires
        old(rooms)@.wf(),
    ensures
        final(rooms)@.wf(),
        final(call)@ == old(call)@.ended(now),
        final(call)@.state == CallState::Ended,
        outcome.removed == old(rooms)@.has_room(old(call)@.room_id),
        final(rooms)@ == old(rooms)@.without_room(old(call)@.room_id),
        !final(rooms)@.has_room(old(call)@.room_id),
        views(outcome.deliveries@) == call_ended_spec(
            users_in(old(rooms)@, old(call)@.room_id),
            members@,
            old(call)@.room_id,
        ),
{
    let room_id = call.room_id;
    let participants = distinct(&rooms.get_participant_user_ids(&room_id));
    call.end_call(now);
    let removed = rooms.remove_room(&room_id);
    let mut deliveries = users_delivery(&participants, OutboundEvent::RoomClosed { room_id });
    let ghost head = views(deliveries@);
    let mut told = users_delivery(members, OutboundEvent::CallEnded { room_id });
    let ghost tail = views(told@);
    deliveries.append(&mut told);
    proof {
        assert(views(deliveries@) =~= head + tail);
    }
    CallEndOutcome { removed, deliveries }
}

} // verus!
