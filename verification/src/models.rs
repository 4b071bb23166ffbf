use crate::text::opt_text;
use crate::ids::ObjectId;
use crate::seqs::views;
use vstd::prelude::*;

verus! {

/// Where a room's call stands.
#[derive(Clone, Copy, Debug, PartialEq, Eq, Structural)]
pub enum CallState {
    /// No call was started yet.
    Idle,
    /// A call is going on.
    InProgress,
    /// The last call has ended.
    Ended,
}

/// What a member or a role may and may not do in a room.
#[derive(Clone, Copy, Debug, PartialEq, Eq, Structural)]
pub struct PermissionOverwrite {
    pub target_id: ObjectId,
    /// Whether the target is a role; else it is a member.
    pub target_is_role: bool,
    pub allow: u64,
    pub deny: u64,
}

/// Which media a room offers.
#[derive(Clone, Copy, Debug, PartialEq, Eq, Structural)]
pub struct MediaSettings {
    pub audio_enabled: bool,
    pub video_enabled: bool,
    pub screen_share_enabled: bool,
    pub recording_enabled: bool,
    pub transcription_enabled: bool,
    pub max_participants: Option<u32>,
}

/// How a room's conference is scheduled and run. Times are in
/// milliseconds since the epoch.
#[derive(Debug)]
pub struct ConferenceSettings {
    pub scheduled_start: Option<i64>,
    pub scheduled_end: Option<i64>,
    pub recurrence: Option<String>,
    pub timezone: Option<String>,
    pub lobby_enabled: bool,
    pub auto_record: bool,
}

/// A room of a tenant. Times are in milliseconds since the epoch.
#[derive(Debug)]
pub struct Room {
    pub id: Option<ObjectId>,
    pub tenant_id: ObjectId,
    pub parent_id: Option<ObjectId>,
    pub name: String,
    pub path: String,
    pub emoji: Option<String>,
    pub topic: Option<String>,
    pub purpose: Option<String>,
    pub icon: Option<String>,
    pub position: i32,
    pub is_open: bool,
    pub is_archived: bool,
    pub is_read_only: bool,
    pub is_default: bool,
    pub permission_overwrites: Vec<PermissionOverwrite>,
    pub tags: Vec<String>,
    pub media_settings: Option<MediaSettings>,
    pub conference_settings: Option<ConferenceSettings>,
    pub conference_status: CallState,
    pub meeting_code: Option<String>,
    pub join_url: Option<String>,
    pub organizer_id: Option<ObjectId>,
    pub co_organizer_ids: Vec<ObjectId>,
    pub creator_id: ObjectId,
    pub last_message_id: Option<ObjectId>,
    pub last_activity_at: Option<i64>,
    pub member_count: u32,
    pub message_count: u64,
    pub participant_count: u32,
    pub peak_participant_count: u32,
    pub actual_start_time: Option<i64>,
    pub actual_end_time: Option<i64>,
    pub created_at: i64,
    pub updated_at: i64,
    pub deleted_at: Option<i64>,
}

/// The part that a participant plays in a call.
#[derive(Clone, Copy, Debug, PartialEq, Eq, Structural)]
pub enum ParticipantRole {
    Organizer,
    CoOrganizer,
    Presenter,
    Attendee,
}

/// One stay of a member in a room's call. Times are in milliseconds since the epoch.
#[derive(Debug)]
pub struct ParticipantSession {
    pub joined_at: i64,
    /// When the stay ended; `None` while it lasts.
    pub left_at: Option<i64>,
    pub duration: Option<i64>,
    pub device_type: String,
}

/// What a [`ParticipantSession`] holds, as mathematical values.
pub ghost struct SessionView {
    pub joined_at: i64,
    pub left_at: Option<i64>,
    pub duration: Option<i64>,
    pub device_type: Seq<char>,
}

impl View for ParticipantSession {
    type V = SessionView;

    open spec fn view(&self) -> SessionView {
        SessionView {
            joined_at: self.joined_at,
            left_at: self.left_at,
            duration: self.duration,
            device_type: self.device_type@,
        }
    }
}

/// A member of a room, with the member's stays in the room's calls.
#[derive(Debug)]
pub struct RoomMember {
    pub id: Option<ObjectId>,
    pub tenant_id: ObjectId,
    pub room_id: ObjectId,
    pub user_id: Option<ObjectId>,
    pub display_name: Option<String>,
    pub email: Option<String>,
    pub is_external: bool,
    pub role: Option<ParticipantRole>,
    pub sessions: Vec<ParticipantSession>,
    pub joined_at: i64,
    pub last_read_message_id: Option<ObjectId>,
    pub last_read_at: Option<i64>,
    pub unread_count: i64,
    pub mention_count: i64,
    pub notification_override: Option<String>,
    pub is_muted: bool,
    pub is_pinned: bool,
    pub is_video_on: bool,
    pub is_screen_sharing: bool,
    pub is_hand_raised: bool,
    pub total_duration: i64,
    pub created_at: i64,
    pub updated_at: i64,
}

/// What a [`RoomMember`] holds, as mathematical values.
pub ghost struct MemberView {
    pub id: Option<ObjectId>,
    pub tenant_id: ObjectId,
    pub room_id: ObjectId,
    pub user_id: Option<ObjectId>,
    pub display_name: Option<Seq<char>>,
    pub email: Option<Seq<char>>,
    pub is_external: bool,
    pub role: Option<ParticipantRole>,
    pub sessions: Seq<SessionView>,
    pub joined_at: i64,
    pub last_read_message_id: Option<ObjectId>,
    pub last_read_at: Option<i64>,
    pub unread_count: i64,
    pub mention_count: i64,
    pub notification_override: Option<Seq<char>>,
    pub is_muted: bool,
    pub is_pinned: bool,
    pub is_video_on: bool,
    pub is_screen_sharing: bool,
    pub is_hand_raised: bool,
    pub total_duration: i64,
    pub created_at: i64,
    pub updated_at: i64,
}

impl View for RoomMember {
    type V = MemberView;

    open spec fn view(&self) -> MemberView {
        MemberView {
            id: self.id,
            tenant_id: self.tenant_id,
            room_id: self.room_id,
            user_id: self.user_id,
            display_name: opt_text(self.display_name),
            email: opt_text(self.email),
            is_external: self.is_external,
            role: self.role,
            sessions: views(self.sessions@),
            joined_at: self.joined_at,
            last_read_message_id: self.last_read_message_id,
            last_read_at: self.last_read_at,
            unread_count: self.unread_count,
            mention_count: self.mention_count,
            notification_override: opt_text(self.notification_override),
            is_muted: self.is_muted,
            is_pinned: self.is_pinned,
            is_video_on: self.is_video_on,
            is_screen_sharing: self.is_screen_sharing,
            is_hand_raised: self.is_hand_raised,
            total_duration: self.total_duration,
            created_at: self.created_at,
            updated_at: self.updated_at,
        }
    }
}

/// A chat message written during a call.
#[derive(Debug)]
pub struct CallChatMessage {
    pub id: Option<ObjectId>,
    pub tenant_id: ObjectId,
    pub room_id: ObjectId,
    pub author_id: ObjectId,
    pub display_name: String,
    pub content: String,
    pub created_at: i64,
}

} // verus!
