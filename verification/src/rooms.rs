use crate::text::opt_text;
use crate::ids::ObjectId;
use crate::models::{CallState, ConferenceSettings, MediaSettings, Room};
use crate::random::random_in;
use crate::seqs::views;
use crate::text::{
    chars_of, decimal, is_alphanumeric_char, lowercase_of, push_decimal, push_text, string_of,
};
use vstd::prelude::*;

verus! {

/// The smallest part of a meeting code.
pub const CODE_PART_MIN: u32 = 100;

/// One more than the largest part of a meeting code.
pub const CODE_PART_END: u32 = 999;

/// A meeting code: three numbers joined by hyphens.
pub open spec fn meeting_code_text(a: u32, b: u32, c: u32) -> Seq<char> {
    decimal(a as nat) + seq!['-'] + decimal(b as nat) + seq!['-'] + decimal(c as nat)
}

/// Writes the meeting code of three numbers.
pub fn meeting_code(a: u32, b: u32, c: u32) -> (code: String)
    ensures
        code@ == meeting_code_text(a, b, c),
{
    let mut code = String::new();
    push_decimal(&mut code, a as u64);
    code.push('-');
    push_decimal(&mut code, b as u64);
    code.push('-');
    push_decimal(&mut code, c as u64);
    code
}

/// Draws a meeting code: three numbers of three digits each, joined by hyphens.
pub fn generate_meeting_code() -> (code: String)
    ensures
        exists|a: u32, b: u32, c: u32|
            CODE_PART_MIN <= a < CODE_PART_END && CODE_PART_MIN <= b < CODE_PART_END
                && CODE_PART_MIN <= c < CODE_PART_END && code@ == meeting_code_text(a, b, c),
{
    let a = random_in(CODE_PART_MIN, CODE_PART_END);
    let b = random_in(CODE_PART_MIN, CODE_PART_END);
    let c = random_in(CODE_PART_MIN, CODE_PART_END);
    meeting_code(a, b, c)
}

/// Where a meeting is joined.
pub fn join_url(code: &str) -> (url: String)
    ensures
        url@ == "/join/"@ + code@,
{
    let mut url = "/join/".to_owned();
    push_text(&mut url, code);
    url
}

/// The path of a room: its name, behind its parent's path and a dot where it has a parent.
pub open spec fn room_path_text(parent_path: Option<Seq<char>>, name: Seq<char>) -> Seq<char> {
    match parent_path {
        Some(p) => p + seq!['.'] + name,
        None => name,
    }
}

/// The path of a room.
pub fn room_path(parent_path: Option<&str>, name: &str) -> (path: String)
    ensures
        path@ == room_path_text(
            match parent_path {
                Some(p) => Some(p@),
                None => None,
            },
            name@,
        ),
{
    match parent_path {
        Some(p) => {
            let mut path = p.to_owned();
            path.push('.');
            push_text(&mut path, name);
            path
        },
        None => name.to_owned(),
    }
}

/// Whether a character has a meaning of its own in a search pattern.
pub open spec fn is_pattern_char(c: char) -> bool {
    c == '.' || c == '*' || c == '+' || c == '?' || c == '^' || c == '$' || c == '{' || c == '}'
        || c == '(' || c == ')' || c == '|' || c == '[' || c == ']' || c == '\\'
}

/// A search text with a backslash before each character that has a meaning
/// of its own in a pattern, so that the text is searched for as it stands.
pub open spec fn escaped_text(query: Seq<char>) -> Seq<char>
    decreases query.len(),
{
    if query.len() == 0 {
        Seq::empty()
    } else if is_pattern_char(query.last()) {
        escaped_text(query.drop_last()) + seq!['\\', query.last()]
    } else {
        escaped_text(query.drop_last()).push(query.last())
    }
}

/// Escapes a search text for use as a pattern.
pub fn escape_query(query: &str) -> (escaped: String)
    ensures
        escaped@ == escaped_text(query@),
{
    let chars = chars_of(query);
    let mut out: Vec<char> = Vec::new();
    let mut i: usize = 0;
    while i < chars.len()
        invariant
            i <= chars.len(),
            out@ == escaped_text(chars@.take(i as int)),
        decreases chars.len() - i,
    {
        let c = chars[i];
        let ghost before = out@;
        proof {
            assert(chars@.take(i as int + 1).drop_last() =~= chars@.take(i as int));
        }
        if c == '.' || c == '*' || c == '+' || c == '?' || c == '^' || c == '$' || c == '{' || c
            == '}' || c == '(' || c == ')' || c == '|' || c == '[' || c == ']' || c == '\\' {
            out.push('\\');
            out.push(c);
            proof {
                assert(out@ =~= before + seq!['\\', c]);
            }
        } else {
            out.push(c);
        }
        i += 1;
    }
    proof {
        assert(chars@.take(chars@.len() as int) =~= chars@);
    }
    string_of(&out)
}

/// The paths of the ancestors of the room at `path`, outermost first: what
/// stands before each dot of the path.
pub open spec fn ancestor_paths_text(path: Seq<char>) -> Seq<Seq<char>>
    decreases path.len(),
{
    if path.len() == 0 {
        Seq::empty()
    } else if path.last() == '.' {
        ancestor_paths_text(path.drop_last()).push(path.drop_last())
    } else {
        ancestor_paths_text(path.drop_last())
    }
}

/// The paths of the ancestors of the room at `path`, outermost first.
pub fn ancestor_paths(path: &str) -> (paths: Vec<String>)
    ensures
        views(paths@) == ancestor_paths_text(path@),
{
    let chars = chars_of(path);
    let mut paths: Vec<String> = Vec::new();
    let mut prefix: Vec<char> = Vec::new();
    let mut i: usize = 0;
    proof {
        assert(views(paths@) =~= Seq::<Seq<char>>::empty());
    }
    while i < chars.len()
        invariant
            i <= chars.len(),
            prefix@ == chars@.take(i as int),
            views(paths@) == ancestor_paths_text(chars@.take(i as int)),
        decreases chars.len() - i,
    {
        let ghost before = views(paths@);
        proof {
            assert(chars@.take(i as int + 1).drop_last() =~= chars@.take(i as int));
        }
        if chars[i] == '.' {
            let ancestor = string_of(&prefix);
            paths.push(ancestor);
            proof {
                assert(views(paths@) =~= before.push(prefix@));
            }
        }
        prefix.push(chars[i]);
        proof {
            assert(prefix@ =~= chars@.take(i as int + 1));
        }
        i += 1;
    }
    proof {
        assert(chars@.take(chars@.len() as int) =~= chars@);
    }
    paths
}

/// The predicate that holds of the characters of a user name: letters,
/// numbers and the underscore.
pub open spec fn is_username_char() -> spec_fn(char) -> bool {
    |c: char| is_alphanumeric_char(c) || c == '_'
}

/// `s` with every space replaced by an underscore.
pub open spec fn underscored(s: Seq<char>) -> Seq<char> {
    Seq::new(
        s.len(),
        |i: int|
            if s[i] == ' ' {
                '_'
            } else {
                s[i]
            },
    )
}

/// The user name that a display name suggests: lower case, underscores
/// for spaces, nothing but letters, numbers and underscores.
pub open spec fn base_username_text(display_name: Seq<char>) -> Seq<char> {
    underscored(lowercase_of(display_name)).filter(is_username_char())
}

/// The user name that a display name suggests.
pub fn base_username(display_name: &str) -> (name: String)
    ensures
        name@ == base_username_text(display_name@),
{
    let lower_text = display_name.to_lowercase();
    let lower = chars_of(lower_text.as_str());
    let ghost marked = underscored(lower@);
    let ghost keep = is_username_char();
    let mut out: Vec<char> = Vec::new();
    let mut i: usize = 0;
    proof {
        reveal(Seq::filter);
        assert(marked.take(0).filter(keep) =~= Seq::<char>::empty());
    }
    while i < lower.len()
        invariant
            i <= lower.len(),
            marked == underscored(lower@),
            keep == is_username_char(),
            out@ == marked.take(i as int).filter(keep),
        decreases lower.len() - i,
    {
        proof {
            crate::seqs::lemma_filter_take_step(marked, keep, i as int);
        }
        let c: char = if lower[i] == ' ' {
            '_'
        } else {
            lower[i]
        };
        if c.is_alphanumeric() || c == '_' {
            out.push(c);
        }
        i += 1;
    }
    proof {
        assert(marked.take(marked.len() as int) =~= marked);
    }
    string_of(&out)
}

/// A user name made unique: the suggested name, an underscore and a suffix.
pub fn unique_username(base: &str, suffix: &str) -> (name: String)
    ensures
        name@ == base@ + seq!['_'] + suffix@,
{
    let mut name = base.to_owned();
    name.push('_');
    push_text(&mut name, suffix);
    name
}

/// How often a user name is drawn anew after a collision.
pub const USERNAME_ATTEMPTS: usize = 5;

/// The name under which a user is shown: the display name, or the user
/// name where that is empty; none where both are empty.
pub fn shown_name(display_name: &str, username: &str) -> (name: Option<String>)
    ensures
        match name {
            Some(n) => n@.len() > 0 && n@ == if display_name@.len() > 0 {
                display_name@
            } else {
                username@
            },
            None => display_name@.len() == 0 && username@.len() == 0,
        },
{
    if display_name.unicode_len() > 0 {
        Some(display_name.to_owned())
    } else if username.unicode_len() > 0 {
        Some(username.to_owned())
    } else {
        None
    }
}

/// Whether a role may be deleted: default roles and managed roles may not.
pub fn may_delete_role(is_default: bool, is_managed: bool) -> (allowed: bool)
    ensures
        allowed == !(is_default || is_managed),
{
    !(is_default || is_managed)
}

/// A new room of `tenant_id` at `path`, made by `creator_id` at `now`:
/// not archived, without messages, with its creator as its one member. A
/// room with media or conference settings gets the meeting code `code` and
/// the address to join under; any other room gets neither.
pub fn new_room(
    tenant_id: ObjectId,
    name: String,
    parent_id: Option<ObjectId>,
    path: String,
    creator_id: ObjectId,
    is_open: bool,
    media_settings: Option<MediaSettings>,
    conference_settings: Option<ConferenceSettings>,
    code: String,
    now: i64,
) -> (room: Room)
    ensures
        room.id is None,
        room.tenant_id == tenant_id,
        room.parent_id == parent_id,
        room.name@ == name@,
        room.path@ == path@,
        room.emoji is None && room.topic is None && room.purpose is None && room.icon is None,
        room.position == 0,
        room.is_open == is_open,
        !room.is_archived && !room.is_read_only && !room.is_default,
        room.permission_overwrites@.len() == 0,
        room.tags@.len() == 0,
        room.media_settings == media_settings,
        room.conference_settings == conference_settings,
        room.conference_status == CallState::Idle,
        opt_text(room.meeting_code) == (if media_settings is Some || conference_settings is Some {
            Some(code@)
        } else {
            None
        }),
        opt_text(room.join_url) == (if media_settings is Some || conference_settings is Some {
            Some("/join/"@ + code@)
        } else {
            None
        }),
        room.organizer_id is None,
        room.co_organizer_ids@.len() == 0,
        room.creator_id == creator_id,
        room.last_message_id is None && room.last_activity_at is None,
        room.member_count == 1,
        room.message_count == 0,
        room.participant_count == 0 && room.peak_participant_count == 0,
        room.actual_start_time is None && room.actual_end_time is None,
        room.created_at == now && room.updated_at == now,
        room.deleted_at is None,
{
    let meets = media_settings.is_some() || conference_settings.is_some();
    let url = if meets {
        Some(join_url(code.as_str()))
    } else {
        None
    };
    let meeting_code = if meets {
        Some(code)
    } else {
        None
    };
    Room {
        id: None,
        tenant_id,
        parent_id,
        name,
        path,
        emoji: None,
        topic: None,
        purpose: None,
        icon: None,
        position: 0,
        is_open,
        is_archived: false,
        is_read_only: false,
        is_default: false,
        permission_overwrites: Vec::new(),
        tags: Vec::new(),
        media_settings,
        conference_settings,
        conference_status: CallState::Idle,
        meeting_code,
        join_url: url,
        organizer_id: None,
        co_organizer_ids: Vec::new(),
        creator_id,
        last_message_id: None,
        last_activity_at: None,
        member_count: 1,
        message_count: 0,
        participant_count: 0,
        peak_participant_count: 0,
        actual_start_time: None,
        actual_end_time: None,
        created_at: now,
        updated_at: now,
        deleted_at: None,
    }
}

} // verus!
