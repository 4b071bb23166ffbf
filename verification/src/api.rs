use crate::dispatcher::{users_except};
use crate::text::opt_text;
use crate::ids::{hex_text, ObjectId};
use crate::models::{CallState, MediaSettings, Room};
use crate::oauth::{oauth_error_text, OAuthError, OAuthErrorView};
use crate::protocol::object_id_of;
use crate::seqs::{views};
use crate::text::{chars_of, push_text, string_of};
use vstd::prelude::*;

verus! {

/// Why a request to the server failed, by kind.
#[derive(Debug)]
pub enum ApiError {
    NotFound(String),
    BadRequest(String),
    Unauthorized(String),
    Forbidden(String),
    Conflict(String),
    Internal(String),
    Validation(String),
}

/// What an [`ApiError`] holds, as mathematical values.
pub ghost enum ApiErrorView {
    NotFound(Seq<char>),
    BadRequest(Seq<char>),
    Unauthorized(Seq<char>),
    Forbidden(Seq<char>),
    Conflict(Seq<char>),
    Internal(Seq<char>),
    Validation(Seq<char>),
}

impl View for ApiError {
    type V = ApiErrorView;

    open spec fn view(&self) -> ApiErrorView {
        match *self {
            ApiError::NotFound(m) => ApiErrorView::NotFound(m@),
            ApiError::BadRequest(m) => ApiErrorView::BadRequest(m@),
            ApiError::Unauthorized(m) => ApiErrorView::Unauthorized(m@),
            ApiError::Forbidden(m) => ApiErrorView::Forbidden(m@),
            ApiError::Conflict(m) => ApiErrorView::Conflict(m@),
            ApiError::Internal(m) => ApiErrorView::Internal(m@),
            ApiError::Validation(m) => ApiErrorView::Validation(m@),
        }
    }
}

impl ApiErrorView {
    /// The HTTP status that goes with the error.
    pub open spec fn status(self) -> u16 {
        match self {
            ApiErrorView::NotFound(_) => 404,
            ApiErrorView::BadRequest(_) => 400,
            ApiErrorView::Unauthorized(_) => 401,
            ApiErrorView::Forbidden(_) => 403,
            ApiErrorView::Conflict(_) => 409,
            ApiErrorView::Internal(_) => 500,
            ApiErrorView::Validation(_) => 422,
        }
    }

    /// The short, stable code of the error's kind.
    pub open spec fn code(self) -> Seq<char> {
        match self {
            ApiErrorView::NotFound(_) => "not_found"@,
            ApiErrorView::BadRequest(_) => "bad_request"@,
            ApiErrorView::Unauthorized(_) => "unauthorized"@,
            ApiErrorView::Forbidden(_) => "forbidden"@,
            ApiErrorView::Conflict(_) => "conflict"@,
            ApiErrorView::Internal(_) => "internal"@,
            ApiErrorView::Validation(_) => "validation"@,
        }
    }

    /// The message for people.
    pub open spec fn message(self) -> Seq<char> {
        match self {
            ApiErrorView::NotFound(m) => m,
            ApiErrorView::BadRequest(m) => m,
            ApiErrorView::Unauthorized(m) => m,
            ApiErrorView::Forbidden(m) => m,
            ApiErrorView::Conflict(m) => m,
            ApiErrorView::Internal(m) => m,
            ApiErrorView::Validation(m) => m,
        }
    }

    /// How the kind is announced before the message.
    pub open spec fn label(self) -> Seq<char> {
        match self {
            ApiErrorView::NotFound(_) => "Not found: "@,
            ApiErrorView::BadRequest(_) => "Bad request: "@,
            ApiErrorView::Unauthorized(_) => "Unauthorized: "@,
            ApiErrorView::Forbidden(_) => "Forbidden: "@,
            ApiErrorView::Conflict(_) => "Conflict: "@,
            ApiErrorView::Internal(_) => "Internal error: "@,
            ApiErrorView::Validation(_) => "Validation: "@,
        }
    }
}

impl ApiError {
    /// The HTTP status that goes with the error.
    pub fn status(&self) -> (status: u16)
        ensures
            status == self@.status(),
    {
        match self {
            ApiError::NotFound(_) => 404,
            ApiError::BadRequest(_) => 400,
            ApiError::Unauthorized(_) => 401,
            ApiError::Forbidden(_) => 403,
            ApiError::Conflict(_) => 409,
            ApiError::Internal(_) => 500,
            ApiError::Validation(_) => 422,
        }
    }

    /// The short, stable code of the error's kind.
    pub fn code(&self) -> (code: &'static str)
        ensures
            code@ == self@.code(),
    {
        match self {
            ApiError::NotFound(_) => "not_found",
            ApiError::BadRequest(_) => "bad_request",
            ApiError::Unauthorized(_) => "unauthorized",
            ApiError::Forbidden(_) => "forbidden",
            ApiError::Conflict(_) => "conflict",
            ApiError::Internal(_) => "internal",
            ApiError::Validation(_) => "validation",
        }
    }

    /// The message for people.
    pub fn message(&self) -> (message: &String)
        ensures
            message@ == self@.message(),
    {
        match self {
            ApiError::NotFound(m) => m,
            ApiError::BadRequest(m) => m,
            ApiError::Unauthorized(m) => m,
            ApiError::Forbidden(m) => m,
            ApiError::Conflict(m) => m,
            ApiError::Internal(m) => m,
            ApiError::Validation(m) => m,
        }
    }

    /// How the error reads: its kind, then its message.
    pub fn to_string(&self) -> (text: String)
        ensures
            text@ == self@.label() + self@.message(),
    {
        let mut text: String = match self {
            ApiError::NotFound(_) => "Not found: ".to_owned(),
            ApiError::BadRequest(_) => "Bad request: ".to_owned(),
            ApiError::Unauthorized(_) => "Unauthorized: ".to_owned(),
            ApiError::Forbidden(_) => "Forbidden: ".to_owned(),
            ApiError::Conflict(_) => "Conflict: ".to_owned(),
            ApiError::Internal(_) => "Internal error: ".to_owned(),
            ApiError::Validation(_) => "Validation: ".to_owned(),
        };
        push_text(&mut text, self.message().as_str());
        text
    }

    /// The error that a failure of the store becomes.
    pub fn from_dao(err: DaoError) -> (e: ApiError)
        ensures
            e@ == match err {
                DaoError::NotFound => ApiErrorView::NotFound("Resource not found"@),
                DaoError::DuplicateKey(m) => ApiErrorView::Conflict(m@),
                DaoError::Forbidden(m) => ApiErrorView::Forbidden(m@),
                DaoError::Validation(m) => ApiErrorView::Validation(m@),
                DaoError::Mongo(m) => ApiErrorView::Internal(m@),
                DaoError::BsonSer(m) => ApiErrorView::Internal(m@),
                DaoError::BsonDe(m) => ApiErrorView::Internal(m@),
            },
    {
        match err {
            DaoError::NotFound => ApiError::NotFound("Resource not found".to_owned()),
            DaoError::DuplicateKey(m) => ApiError::Conflict(m),
            DaoError::Forbidden(m) => ApiError::Forbidden(m),
            DaoError::Validation(m) => ApiError::Validation(m),
            DaoError::Mongo(m) => ApiError::Internal(m),
            DaoError::BsonSer(m) => ApiError::Internal(m),
            DaoError::BsonDe(m) => ApiError::Internal(m),
        }
    }

    /// The error that a failure to authenticate becomes.
    pub fn from_auth(err: AuthError) -> (e: ApiError)
        ensures
            e@ == match err {
                AuthError::InvalidCredentials => ApiErrorView::Unauthorized(
                    "Invalid credentials"@,
                ),
                AuthError::TokenExpired => ApiErrorView::Unauthorized("Token expired"@),
                AuthError::InvalidToken(m) => ApiErrorView::Unauthorized(m@),
                AuthError::HashError(m) => ApiErrorView::Internal(m@),
            },
    {
        match err {
            AuthError::InvalidCredentials => ApiError::Unauthorized(
                "Invalid credentials".to_owned(),
            ),
            AuthError::TokenExpired => ApiError::Unauthorized("Token expired".to_owned()),
            AuthError::InvalidToken(m) => ApiError::Unauthorized(m),
            AuthError::HashError(m) => ApiError::Internal(m),
        }
    }

    /// The error that a failed sign-in through an identity provider
    /// becomes: what the client got wrong is a bad request, anything else is
    /// internal.
    pub fn from_oauth(err: OAuthError) -> (e: ApiError)
        ensures
            e@ == match err@ {
                OAuthErrorView::ProviderNotConfigured(p) => ApiErrorView::BadRequest(
                    "Provider not configured: "@ + p,
                ),
                OAuthErrorView::UnknownProvider(p) => ApiErrorView::BadRequest(
                    "Unknown provider: "@ + p,
                ),
                OAuthErrorView::InvalidState => ApiErrorView::BadRequest("Invalid OAuth state"@),
                other => ApiErrorView::Internal(oauth_error_text(other)),
            },
    {
        match &err {
            OAuthError::ProviderNotConfigured(_) => ApiError::BadRequest(err.to_string()),
            OAuthError::UnknownProvider(_) => ApiError::BadRequest(err.to_string()),
            OAuthError::InvalidState => ApiError::BadRequest("Invalid OAuth state".to_owned()),
            _ => ApiError::Internal(err.to_string()),
        }
    }
}

/// Why the store refused or failed.
#[derive(Debug)]
pub enum DaoError {
    NotFound,
    DuplicateKey(String),
    Forbidden(String),
    Validation(String),
    /// The database failed.
    Mongo(String),
    /// A document could not be written.
    BsonSer(String),
    /// A document could not be read.
    BsonDe(String),
}

/// Why an authentication failed.
#[derive(Debug)]
pub enum AuthError {
    InvalidCredentials,
    TokenExpired,
    InvalidToken(String),
    HashError(String),
}

/// Reads an identifier from a path or a body; anything but twenty-four
/// hexadecimal digits is a bad request.
pub fn parse_oid(s: &str) -> (id: Result<ObjectId, ApiError>)
    ensures
        match object_id_of(s@) {
            Some(value) => id matches Ok(found) && found@ == value,
            None => id matches Err(e) && e@ == ApiErrorView::BadRequest(
                "Invalid ObjectId: "@ + s@,
            ),
        },
{
    match ObjectId::parse_str(s) {
        Some(id) => Ok(id),
        None => {
            let mut message = "Invalid ObjectId: ".to_owned();
            push_text(&mut message, s);
            Err(ApiError::BadRequest(message))
        },
    }
}

/// The identifiers of `ids` in increasing order, each once.
pub open spec fn is_sorted_set_of(sorted: Seq<ObjectId>, ids: Seq<ObjectId>) -> bool {
    &&& forall|a: int, b: int| 0 <= a < b < sorted.len() ==> sorted[a]@ < sorted[b]@
    &&& forall|i: int| 0 <= i < sorted.len() ==> ids.contains(#[trigger] sorted[i])
    &&& forall|i: int| 0 <= i < ids.len() ==> sorted.contains(#[trigger] ids[i])
}

/// The authors of messages, in increasing order, each once.
pub fn collect_author_ids(author_ids: &Vec<ObjectId>) -> (ids: Vec<ObjectId>)
    ensures
        is_sorted_set_of(ids@, author_ids@),
{
    let mut ids: Vec<ObjectId> = Vec::new();
    let mut i: usize = 0;
    while i < author_ids.len()
        invariant
            i <= author_ids.len(),
            is_sorted_set_of(ids@, author_ids@.take(i as int)),
        decreases author_ids.len() - i,
    {
        let id = author_ids[i];
        let ghost before = ids@;
        let ghost seen = author_ids@.take(i as int);
        let mut at: usize = 0;
        while at < ids.len() && ids[at].value() < id.value()
            invariant
                at <= ids.len(),
                ids@ == before,
                forall|k: int| 0 <= k < at ==> ids@[k]@ < id@,
            decreases ids.len() - at,
        {
            at += 1;
        }
        let present = at < ids.len() && ids[at].same(&id);
        if !present {
            ids.insert(at, id);
        }
        proof {
            let next = author_ids@.take(i as int + 1);
            assert(next =~= seen.push(id));
            assert forall|k: int| 0 <= k < ids@.len() implies next.contains(
                #[trigger] ids@[k],
            ) by {
                let x = ids@[k];
                if !present && k == at {
                    assert(next[i as int] == id);
                } else {
                    let k0 = if !present && k > at {
                        k - 1
                    } else {
                        k
                    };
                    assert(before[k0] == x);
                    assert(seen.contains(x));
                    let j = choose|j: int| 0 <= j < seen.len() && seen[j] == x;
                    assert(next[j] == x);
                }
            }
            assert forall|k: int| 0 <= k < next.len() implies ids@.contains(
                #[trigger] next[k],
            ) by {
                let x = next[k];
                if k == i {
                    assert(ids@[at as int] == id);
                } else {
                    assert(seen[k] == x);
                    assert(before.contains(x));
                    let j = choose|j: int| 0 <= j < before.len() && before[j] == x;
                    let j1 = if !present && j >= at {
                        j + 1
                    } else {
                        j
                    };
                    assert(ids@[j1] == x);
                }
            }
            assert forall|a: int, b: int| 0 <= a < b < ids@.len() implies ids@[a]@
                < ids@[b]@ by {
                if !present {
                    let a0 = if a > at {
                        a - 1
                    } else {
                        a
                    };
                    let b0 = if b > at {
                        b - 1
                    } else {
                        b
                    };
                    if a == at {
                        assert(ids@[b] == before[b0]);
                        if b0 > at {
                            assert(before[at as int]@ < before[b0]@);
                        }
                    } else if b == at {
                        assert(ids@[a] == before[a0]);
                    } else {
                        assert(ids@[a] == before[a0]);
                        assert(ids@[b] == before[b0]);
                        assert(before[a0]@ < before[b0]@);
                    }
                }
            }
        }
        i += 1;
    }
    proof {
        assert(author_ids@.take(author_ids@.len() as int) =~= author_ids@);
    }
    ids
}

/// Those of `texts` that are identifiers, read, in order.
pub open spec fn parsed_ids(texts: Seq<Seq<char>>) -> Seq<nat>
    decreases texts.len(),
{
    if texts.len() == 0 {
        Seq::empty()
    } else {
        let rest = parsed_ids(texts.drop_last());
        match object_id_of(texts.last()) {
            Some(id) => rest.push(id),
            None => rest,
        }
    }
}

/// Reads the identifiers among `texts`; what is no identifier is passed over.
pub fn parse_ids_lenient(texts: &Vec<String>) -> (ids: Vec<ObjectId>)
    ensures
        Seq::new(ids@.len(), |i: int| ids@[i]@) == parsed_ids(views(texts@)),
{
    let ghost all = views(texts@);
    let mut ids: Vec<ObjectId> = Vec::new();
    let mut i: usize = 0;
    proof {
        assert(Seq::new(ids@.len(), |i: int| ids@[i]@) =~= parsed_ids(all.take(0)));
    }
    while i < texts.len()
        invariant
            i <= texts.len(),
            all == views(texts@),
            Seq::new(ids@.len(), |k: int| ids@[k]@) == parsed_ids(all.take(i as int)),
        decreases texts.len() - i,
    {
        let ghost before = Seq::new(ids@.len(), |k: int| ids@[k]@);
        proof {
            assert(all.take(i as int + 1).drop_last() =~= all.take(i as int));
            assert(all.take(i as int + 1).last() == texts@[i as int]@);
        }
        match ObjectId::parse_str(texts[i].as_str()) {
            Some(id) => {
                ids.push(id);
                proof {
                    assert(Seq::new(ids@.len(), |k: int| ids@[k]@) =~= before.push(id@));
                }
            },
            None => {},
        }
        i += 1;
    }
    proof {
        assert(all.take(all.len() as int) =~= all);
    }
    ids
}

/// Who is told of a mention: with `everyone`, the members that the message
/// went to; else the mentioned users but the sender.
pub fn mention_recipients(
    everyone: bool,
    mentioned: &Vec<ObjectId>,
    members_told: &Vec<ObjectId>,
    sender: &ObjectId,
) -> (recipients: Vec<ObjectId>)
    ensures
        recipients@ == if everyone {
            members_told@
        } else {
            users_except(mentioned@, *sender)
        },
{
    if everyone {
        let mut copy: Vec<ObjectId> = Vec::new();
        let mut i: usize = 0;
        while i < members_told.len()
            invariant
                i <= members_told.len(),
                copy@ == members_told@.take(i as int),
            decreases members_told.len() - i,
        {
            copy.push(members_told[i]);
            proof {
                assert(copy@ =~= members_told@.take(i as int + 1));
            }
            i += 1;
        }
        proof {
            assert(members_told@.take(members_told@.len() as int) =~= members_told@);
        }
        copy
    } else {
        crate::dispatcher::recipients_except(mentioned, sender)
    }
}

/// The longest body of a mention's notification, in characters.
pub const NOTIFICATION_BODY_CHARS: usize = 200;

/// The body of a mention's notification: the beginning of the message.
pub fn notification_body(content: &str) -> (body: String)
    ensures
        body@ == if content@.len() <= NOTIFICATION_BODY_CHARS {
            content@
        } else {
            content@.take(NOTIFICATION_BODY_CHARS as int)
        },
{
    let chars = chars_of(content);
    if chars.len() <= NOTIFICATION_BODY_CHARS {
        return content.to_owned();
    }
    let mut head: Vec<char> = Vec::new();
    let mut i: usize = 0;
    while i < NOTIFICATION_BODY_CHARS
        invariant
            i <= NOTIFICATION_BODY_CHARS,
            chars@.len() > NOTIFICATION_BODY_CHARS,
            head@ == chars@.take(i as int),
        decreases NOTIFICATION_BODY_CHARS - i,
    {
        head.push(chars[i]);
        proof {
            assert(head@ =~= chars@.take(i as int + 1));
        }
        i += 1;
    }
    string_of(&head)
}

/// The title of a mention's notification.
pub fn notification_title(room_name: &str) -> (title: String)
    ensures
        title@ == "Mentioned in #"@ + room_name@,
{
    let mut title = "Mentioned in #".to_owned();
    push_text(&mut title, room_name);
    title
}

/// Where a mention's notification leads.
pub fn notification_link(tenant_id: &str, room_id: &str) -> (link: String)
    ensures
        link@ == "/tenant/"@ + tenant_id@ + "/room/"@ + room_id@,
{
    let mut link = "/tenant/".to_owned();
    push_text(&mut link, tenant_id);
    push_text(&mut link, "/room/");
    push_text(&mut link, room_id);
    link
}

/// How long an invite lasts where the request does not say: seven days.
pub const DEFAULT_INVITE_HOURS: u64 = 168;

/// How long an invite lasts, in hours.
pub fn invite_hours(requested: Option<u64>) -> (hours: u64)
    ensures
        hours == match requested {
            Some(h) => h,
            None => DEFAULT_INVITE_HOURS,
        },
{
    match requested {
        Some(h) => h,
        None => DEFAULT_INVITE_HOURS,
    }
}

/// What a client is told of an invite before it accepts.
#[derive(Debug)]
pub struct InviteInfoResponse {
    pub code: String,
    pub tenant_name: String,
    pub tenant_slug: String,
    pub inviter_name: String,
    pub is_valid: bool,
    pub status: String,
    pub already_member: Option<bool>,
}

/// An invite as its tenant sees it.
#[derive(Debug)]
pub struct InviteResponse {
    pub id: String,
    pub code: String,
    pub tenant_id: String,
    pub inviter_id: String,
    pub target_email: Option<String>,
    pub max_uses: Option<u32>,
    pub use_count: u32,
    pub status: String,
    pub assign_role_ids: Vec<String>,
    pub expires_at: Option<String>,
    pub created_at: String,
}

/// The tenant that an accepted invite led into.
#[derive(Debug)]
pub struct AcceptInviteResponse {
    pub tenant_id: String,
    pub tenant_name: String,
    pub tenant_slug: String,
}

/// A request to create an invite.
#[derive(Debug)]
pub struct CreateInviteRequest {
    pub target_email: Option<String>,
    pub max_uses: Option<u32>,
    pub expires_in_hours: Option<u64>,
    pub assign_role_ids: Vec<String>,
}

/// A request to add a user to a tenant.
#[derive(Debug)]
pub struct AddMemberRequest {
    pub user_id: String,
    pub role_ids: Vec<String>,
}

/// Who a message mentions.
#[derive(Debug)]
pub struct MentionRequest {
    pub users: Vec<String>,
    pub everyone: bool,
    pub here: bool,
}

/// A request to post a message.
#[derive(Debug)]
pub struct CreateMessageRequest {
    pub content: String,
    pub thread_id: Option<String>,
    pub referenced_message_id: Option<String>,
    pub nonce: Option<String>,
    pub mentions: Option<MentionRequest>,
    pub attachment_ids: Vec<String>,
}

/// A request to change a message.
#[derive(Debug)]
pub struct UpdateMessageRequest {
    pub content: String,
}

/// A file attached to a message.
#[derive(Debug)]
pub struct AttachmentResponse {
    pub file_id: String,
    pub filename: String,
    pub content_type: String,
    pub size: u64,
    pub url: String,
    pub thumbnail_url: Option<String>,
}

/// How often an emoji was given to a message.
#[derive(Debug)]
pub struct ReactionSummaryResponse {
    pub emoji: String,
    pub count: u32,
}

/// A message as clients see it.
#[derive(Debug)]
pub struct MessageResponse {
    pub id: String,
    pub room_id: String,
    pub author_id: String,
    pub author_name: String,
    pub content: String,
    pub message_type: String,
    pub is_pinned: bool,
    pub is_edited: bool,
    pub is_thread_root: bool,
    pub thread_id: Option<String>,
    pub referenced_message_id: Option<String>,
    pub reaction_summary: Vec<ReactionSummaryResponse>,
    pub attachments: Vec<AttachmentResponse>,
    pub created_at: String,
    pub updated_at: String,
}

/// A request to pin or unpin a message.
#[derive(Clone, Copy, Debug, PartialEq, Eq, Structural)]
pub struct TogglePinRequest {
    pub pinned: bool,
}

/// A notification as its user sees it.
#[derive(Debug)]
pub struct NotificationResponse {
    pub id: String,
    pub notification_type: String,
    pub title: String,
    pub body: String,
    pub link: Option<String>,
    pub is_read: bool,
    pub created_at: String,
}

/// What an identity provider sends back with the user.
#[derive(Debug)]
pub struct CallbackQuery {
    pub code: String,
    pub state: String,
}

/// A role as clients see it.
#[derive(Debug)]
pub struct RoleResponse {
    pub id: String,
    pub tenant_id: String,
    pub name: String,
    pub description: Option<String>,
    pub color: Option<u32>,
    pub position: u32,
    pub permissions: u64,
    pub is_default: bool,
    pub is_managed: bool,
    pub is_mentionable: bool,
}

/// A request to create a role.
#[derive(Debug)]
pub struct CreateRoleRequest {
    pub name: String,
    pub description: Option<String>,
    pub color: Option<u32>,
    pub permissions: Option<u64>,
    pub position: Option<u32>,
}

/// A request to change a role.
#[derive(Debug)]
pub struct UpdateRoleRequest {
    pub name: Option<String>,
    pub description: Option<String>,
    pub color: Option<u32>,
    pub permissions: Option<u64>,
    pub position: Option<u32>,
}

/// The permissions of a role created without any.
pub const DEFAULT_ROLE_PERMISSIONS: u64 = 0;

/// The position of a role created without one.
pub const DEFAULT_ROLE_POSITION: u32 = 100;

/// The permissions and the position of a role to create.
pub fn role_defaults(request: &CreateRoleRequest) -> (values: (u64, u32))
    ensures
        values.0 == match request.permissions {
            Some(p) => p,
            None => DEFAULT_ROLE_PERMISSIONS,
        },
        values.1 == match request.position {
            Some(p) => p,
            None => DEFAULT_ROLE_POSITION,
        },
{
    (
        match request.permissions {
            Some(p) => p,
            None => DEFAULT_ROLE_PERMISSIONS,
        },
        match request.position {
            Some(p) => p,
            None => DEFAULT_ROLE_POSITION,
        },
    )
}

/// A request to create a room.
#[derive(Debug)]
pub struct CreateRoomRequest {
    pub name: String,
    pub parent_id: Option<String>,
    pub is_open: bool,
    pub media_settings: Option<MediaSettings>,
}

/// A room as clients see it.
#[derive(Debug)]
pub struct RoomResponse {
    pub id: String,
    pub name: String,
    pub path: String,
    pub parent_id: Option<String>,
    pub is_open: bool,
    pub member_count: u32,
    pub message_count: u64,
    pub has_media: bool,
    pub conference_status: Option<String>,
    pub meeting_code: Option<String>,
    pub participant_count: u32,
}

/// What a [`RoomResponse`] holds, as mathematical values.
pub ghost struct RoomResponseView {
    pub id: Seq<char>,
    pub name: Seq<char>,
    pub path: Seq<char>,
    pub parent_id: Option<Seq<char>>,
    pub is_open: bool,
    pub member_count: u32,
    pub message_count: u64,
    pub has_media: bool,
    pub conference_status: Option<Seq<char>>,
    pub meeting_code: Option<Seq<char>>,
    pub participant_count: u32,
}

impl View for RoomResponse {
    type V = RoomResponseView;

    open spec fn view(&self) -> RoomResponseView {
        RoomResponseView {
            id: self.id@,
            name: self.name@,
            path: self.path@,
            parent_id: opt_text(self.parent_id),
            is_open: self.is_open,
            member_count: self.member_count,
            message_count: self.message_count,
            has_media: self.has_media,
            conference_status: opt_text(self.conference_status),
            meeting_code: opt_text(self.meeting_code),
            participant_count: self.participant_count,
        }
    }
}

/// How a call's state is told to clients: quoted, and not at all before
/// the first call.
pub open spec fn call_state_text(state: CallState) -> Option<Seq<char>> {
    match state {
        CallState::Idle => None,
        CallState::InProgress => Some("\"in_progress\""@),
        CallState::Ended => Some("\"ended\""@),
    }
}

/// A stored room as clients see it.
pub fn to_response(r: Room) -> (response: RoomResponse)
    requires
        r.id is Some,
    ensures
        response@ == (RoomResponseView {
            id: hex_text(r.id.unwrap()@, 24),
            name: r.name@,
            path: r.path@,
            parent_id: match r.parent_id {
                Some(p) => Some(hex_text(p@, 24)),
                None => None,
            },
            is_open: r.is_open,
            member_count: r.member_count,
            message_count: r.message_count,
            has_media: r.media_settings is Some,
            conference_status: call_state_text(r.conference_status),
            meeting_code: opt_text(r.meeting_code),
            participant_count: r.participant_count,
        }),
{
    let id = match &r.id {
        Some(id) => id.to_hex(),
        None => String::new(),
    };
    RoomResponse {
        id,
        name: r.name,
        path: r.path,
        parent_id: match &r.parent_id {
            Some(p) => Some(p.to_hex()),
            None => None,
        },
        is_open: r.is_open,
        member_count: r.member_count,
        message_count: r.message_count,
        has_media: r.media_settings.is_some(),
        conference_status: match r.conference_status {
            CallState::Idle => None,
            CallState::InProgress => Some("\"in_progress\"".to_owned()),
            CallState::Ended => Some("\"ended\"".to_owned()),
        },
        meeting_code: r.meeting_code,
        participant_count: r.participant_count,
    }
}

/// A request to change a room.
#[derive(Debug)]
pub struct UpdateRoomRequest {
    pub name: Option<String>,
    pub topic: Option<String>,
    pub purpose: Option<String>,
    pub is_open: Option<bool>,
    pub is_archived: Option<bool>,
    pub is_read_only: Option<bool>,
}

/// Whether a request to change a room changes anything.
pub fn has_room_changes(request: &UpdateRoomRequest) -> (any: bool)
    ensures
        any == (request.name is Some || request.topic is Some || request.purpose is Some
            || request.is_open is Some || request.is_archived is Some || request.is_read_only
            is Some),
{
    request.name.is_some() || request.topic.is_some() || request.purpose.is_some()
        || request.is_open.is_some() || request.is_archived.is_some()
        || request.is_read_only.is_some()
}

/// A search for rooms.
#[derive(Debug)]
pub struct ExploreQuery {
    pub q: String,
}

/// A request to write a chat message in a call.
#[derive(Debug)]
pub struct CreateCallMessageRequest {
    pub content: String,
}

/// A member of a tenant as clients see it.
#[derive(Debug)]
pub struct MemberResponse {
    pub id: String,
    pub user_id: String,
    pub nickname: Option<String>,
    pub role_ids: Vec<String>,
    pub joined_at: String,
}

/// A user's profile as clients see it.
#[derive(Debug)]
pub struct ProfileResponse {
    pub id: String,
    pub username: String,
    pub display_name: String,
    pub avatar: Option<String>,
    pub bio: Option<String>,
    pub presence: String,
    pub created_at: String,
}

/// A request to change one's profile.
#[derive(Debug)]
pub struct UpdateProfileRequest {
    pub display_name: Option<String>,
    pub bio: Option<String>,
    pub avatar: Option<String>,
    pub locale: Option<String>,
    pub timezone: Option<String>,
}

/// Whether a request to change a profile changes anything.
pub fn has_profile_changes(request: &UpdateProfileRequest) -> (any: bool)
    ensures
        any == (request.display_name is Some || request.bio is Some || request.avatar is Some
            || request.locale is Some || request.timezone is Some),
{
    request.display_name.is_some() || request.bio.is_some() || request.avatar.is_some()
        || request.locale.is_some() || request.timezone.is_some()
}

/// What a client sends to open its connection.
#[derive(Debug)]
pub struct WsParams {
    pub token: String,
}

/// What opening a connection answers where it fails.
#[derive(Clone, Copy, Debug, PartialEq, Eq, Structural)]
pub enum UpgradeRefusal {
    /// The token is not valid: status 401.
    Unauthorized,
    /// The token's subject is no user identifier: status 400.
    InvalidUser,
}

/// Whether a connection may be opened for the subject of a verified token
/// (`None` where the token did not verify), and for which user.
pub fn authorize_upgrade(subject: Option<&str>) -> (user: Result<ObjectId, UpgradeRefusal>)
    ensures
        match subject {
            None => user == Err::<ObjectId, UpgradeRefusal>(UpgradeRefusal::Unauthorized),
            Some(s) => match object_id_of(s@) {
                Some(value) => user matches Ok(found) && found@ == value,
                None => user == Err::<ObjectId, UpgradeRefusal>(UpgradeRefusal::InvalidUser),
            },
        },
{
    match subject {
        None => Err(UpgradeRefusal::Unauthorized),
        Some(s) => match ObjectId::parse_str(s) {
            Some(id) => Ok(id),
            None => Err(UpgradeRefusal::InvalidUser),
        },
    }
}

/// The HTTP status of a refusal to open a connection.
pub fn upgrade_status(refusal: UpgradeRefusal) -> (status: u16)
    ensures
        status == match refusal {
            UpgradeRefusal::Unauthorized => 401u16,
            UpgradeRefusal::InvalidUser => 400u16,
        },
{
    match refusal {
        UpgradeRefusal::Unauthorized => 401,
        UpgradeRefusal::InvalidUser => 400,
    }
}

} // verus!
