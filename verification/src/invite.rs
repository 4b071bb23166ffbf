use crate::api::{ApiError, ApiErrorView, InviteResponse};
use crate::text::opt_text;
use crate::ids::{hex_text, ObjectId};
use crate::seqs::views;
use crate::text::str_eq;
use crate::timefmt::{rfc3339, rfc3339_of};
use vstd::prelude::*;

verus! {

/// Milliseconds in an hour.
pub const MS_PER_HOUR: i64 = 3_600_000;

/// Where an invite stands.
#[derive(Clone, Copy, Debug, PartialEq, Eq, Structural)]
pub enum InviteStatus {
    Active,
    Revoked,
    Exhausted,
    Expired,
}

/// An invitation into a tenant. Times are in milliseconds since the epoch.
#[derive(Debug)]
pub struct Invite {
    pub id: Option<ObjectId>,
    pub tenant_id: ObjectId,
    pub room_id: Option<ObjectId>,
    pub code: String,
    pub inviter_id: ObjectId,
    pub target_email: Option<String>,
    pub target_user_id: Option<ObjectId>,
    pub max_uses: Option<u32>,
    pub use_count: u32,
    pub expires_at: Option<i64>,
    pub assign_role_ids: Vec<ObjectId>,
    pub status: InviteStatus,
    pub created_at: i64,
    pub updated_at: i64,
}

/// What the creator of an invite asks for.
#[derive(Debug)]
pub struct CreateInviteParams {
    pub target_email: Option<String>,
    pub max_uses: Option<u32>,
    pub expires_in_hours: Option<u64>,
    pub assign_role_ids: Vec<ObjectId>,
}

/// Why an invite cannot be used.
#[derive(Clone, Copy, Debug, PartialEq, Eq, Structural)]
pub enum InviteRefusal {
    Revoked,
    FullyUsed,
    Expired,
}

/// How often an invite may be used: once where it is addressed to one
/// e-mail address, else as often as asked for.
pub open spec fn uses_allowed(addressed: bool, max_uses: Option<u32>) -> Option<u32> {
    if addressed {
        Some(1u32)
    } else {
        max_uses
    }
}

/// When an invite made at `now` to last `hours` expires; the latest time
/// there is where that lies beyond it.
pub open spec fn expiry_after(now: i64, hours: u64) -> i64 {
    if now + hours * MS_PER_HOUR <= i64::MAX {
        (now + hours * MS_PER_HOUR) as i64
    } else {
        i64::MAX
    }
}

/// Whether an invite can be used at `now`, and if not, why: its status is
/// looked at first, then its expiry, then its use count.
pub open spec fn validity(
    status: InviteStatus,
    expires_at: Option<i64>,
    max_uses: Option<u32>,
    use_count: u32,
    now: i64,
) -> Result<(), InviteRefusal> {
    match status {
        InviteStatus::Revoked => Err(InviteRefusal::Revoked),
        InviteStatus::Exhausted => Err(InviteRefusal::FullyUsed),
        InviteStatus::Expired => Err(InviteRefusal::Expired),
        InviteStatus::Active => if expires_at is Some && now > expires_at.unwrap() {
            Err(InviteRefusal::Expired)
        } else if max_uses is Some && use_count >= max_uses.unwrap() {
            Err(InviteRefusal::FullyUsed)
        } else {
            Ok(())
        },
    }
}

/// How a refusal reads.
pub fn refusal_message(refusal: InviteRefusal) -> (message: &'static str)
    ensures
        message@ == match refusal {
            InviteRefusal::Revoked => "Invite has been revoked"@,
            InviteRefusal::FullyUsed => "Invite has been fully used"@,
            InviteRefusal::Expired => "Invite has expired"@,
        },
{
    match refusal {
        InviteRefusal::Revoked => "Invite has been revoked",
        InviteRefusal::FullyUsed => "Invite has been fully used",
        InviteRefusal::Expired => "Invite has expired",
    }
}

/// Validates that an invite is still usable at `now`.
pub fn validate(invite: &Invite, now: i64) -> (valid: Result<(), InviteRefusal>)
    ensures
        valid == validity(
            invite.status,
            invite.expires_at,
            invite.max_uses,
            invite.use_count,
            now,
        ),
{
    match invite.status {
        InviteStatus::Active => {},
        InviteStatus::Revoked => {
            return Err(InviteRefusal::Revoked);
        },
        InviteStatus::Exhausted => {
            return Err(InviteRefusal::FullyUsed);
        },
        InviteStatus::Expired => {
            return Err(InviteRefusal::Expired);
        },
    }
    match invite.expires_at {
        Some(at) => {
            if now > at {
                return Err(InviteRefusal::Expired);
            }
        },
        None => {},
    }
    match invite.max_uses {
        Some(max) => {
            if invite.use_count >= max {
                return Err(InviteRefusal::FullyUsed);
            }
        },
        None => {},
    }
    Ok(())
}

/// When an invite made at `now` to last `hours` expires.
pub fn expiry(now: i64, hours: u64) -> (at: i64)
    ensures
        at == expiry_after(now, hours),
{
    assert(0 <= hours * 3_600_000 <= 0xffff_ffff_ffff_ffff * 3_600_000) by (nonlinear_arith)
        requires
            0 <= hours <= 0xffff_ffff_ffff_ffff,
    ;
    let span: i128 = (hours as i128) * 3_600_000;
    let total: i128 = now as i128 + span;
    if total > i64::MAX as i128 {
        i64::MAX
    } else {
        total as i64
    }
}

/// The invite that `inviter_id` makes for `tenant_id` at `now` under the
/// code `code`: active, unused, addressed as the parameters say.
pub fn new_invite(
    tenant_id: ObjectId,
    inviter_id: ObjectId,
    params: CreateInviteParams,
    code: String,
    now: i64,
) -> (invite: Invite)
    ensures
        invite.id is None,
        invite.tenant_id == tenant_id,
        invite.room_id is None,
        invite.code@ == code@,
        invite.inviter_id == inviter_id,
        opt_text(invite.target_email) == opt_text(params.target_email),
        invite.target_user_id is None,
        invite.max_uses == uses_allowed(params.target_email is Some, params.max_uses),
        invite.use_count == 0,
        invite.expires_at == match params.expires_in_hours {
            Some(h) => Some(expiry_after(now, h)),
            None => None,
        },
        invite.assign_role_ids@ == params.assign_role_ids@,
        invite.status == InviteStatus::Active,
        invite.created_at == now,
        invite.updated_at == now,
{
    let max_uses = if params.target_email.is_some() {
        Some(1)
    } else {
        params.max_uses
    };
    let expires_at = match params.expires_in_hours {
        Some(h) => Some(expiry(now, h)),
        None => None,
    };
    Invite {
        id: None,
        tenant_id,
        room_id: None,
        code,
        inviter_id,
        target_email: params.target_email,
        target_user_id: None,
        max_uses,
        use_count: 0,
        expires_at,
        assign_role_ids: params.assign_role_ids,
        status: InviteStatus::Active,
        created_at: now,
        updated_at: now,
    }
}

/// Whether an invite can take one more use: it is active and not used up.
pub open spec fn can_use(status: InviteStatus, max_uses: Option<u32>, use_count: u32) -> bool {
    status == InviteStatus::Active && (max_uses is None || use_count < max_uses.unwrap())
        && use_count < u32::MAX
}

/// The status of an invite after a use: exhausted where the allowed number is reached.
pub open spec fn exhausted_or_active(max_uses: Option<u32>, use_count: u32) -> InviteStatus {
    if max_uses is Some && use_count >= max_uses.unwrap() {
        InviteStatus::Exhausted
    } else {
        InviteStatus::Active
    }
}

/// Counts one use of an invite at `now`. An invite that is not active or
/// is used up is refused and left as it is. With the use that reaches the
/// allowed number the invite becomes exhausted.
pub fn increment_use_count(invite: &mut Invite, now: i64) -> (used: bool)
    ensures
        used == can_use(old(invite).status, old(invite).max_uses, old(invite).use_count),
        !used ==> final(invite).use_count == old(invite).use_count,
        !used ==> final(invite).status == old(invite).status,
        !used ==> final(invite).updated_at == old(invite).updated_at,
        used ==> final(invite).use_count == old(invite).use_count + 1,
        used ==> final(invite).updated_at == now,
        used ==> final(invite).status == exhausted_or_active(
            final(invite).max_uses,
            final(invite).use_count,
        ),
        final(invite).id == old(invite).id,
        final(invite).tenant_id == old(invite).tenant_id,
        final(invite).room_id == old(invite).room_id,
        final(invite).code == old(invite).code,
        final(invite).inviter_id == old(invite).inviter_id,
        final(invite).target_email == old(invite).target_email,
        final(invite).target_user_id == old(invite).target_user_id,
        final(invite).max_uses == old(invite).max_uses,
        final(invite).expires_at == old(invite).expires_at,
        final(invite).assign_role_ids == old(invite).assign_role_ids,
        final(invite).created_at == old(invite).created_at,
{
    let active = match invite.status {
        InviteStatus::Active => true,
        _ => false,
    };
    let room = match invite.max_uses {
        Some(max) => invite.use_count < max,
        None => true,
    };
    if !active || !room || invite.use_count == u32::MAX {
        return false;
    }
    invite.use_count = invite.use_count + 1;
    invite.updated_at = now;
    match invite.max_uses {
        Some(max) => {
            if invite.use_count >= max {
                invite.status = InviteStatus::Exhausted;
            }
        },
        None => {},
    }
    true
}

/// How a status is named to clients.
pub open spec fn status_text(status: InviteStatus) -> Seq<char> {
    match status {
        InviteStatus::Active => "active"@,
        InviteStatus::Revoked => "revoked"@,
        InviteStatus::Exhausted => "exhausted"@,
        InviteStatus::Expired => "expired"@,
    }
}

/// How a status is named to clients.
pub fn status_name(status: InviteStatus) -> (name: &'static str)
    ensures
        name@ == status_text(status),
{
    match status {
        InviteStatus::Active => "active",
        InviteStatus::Revoked => "revoked",
        InviteStatus::Exhausted => "exhausted",
        InviteStatus::Expired => "expired",
    }
}

/// What an [`InviteResponse`] holds, as mathematical values.
pub ghost struct InviteResponseView {
    pub id: Seq<char>,
    pub code: Seq<char>,
    pub tenant_id: Seq<char>,
    pub inviter_id: Seq<char>,
    pub target_email: Option<Seq<char>>,
    pub max_uses: Option<u32>,
    pub use_count: u32,
    pub status: Seq<char>,
    pub assign_role_ids: Seq<Seq<char>>,
    pub expires_at: Option<Seq<char>>,
    pub created_at: Seq<char>,
}

/// The view of an invite as its tenant sees it.
pub open spec fn response_view(r: InviteResponse) -> InviteResponseView {
    InviteResponseView {
        id: r.id@,
        code: r.code@,
        tenant_id: r.tenant_id@,
        inviter_id: r.inviter_id@,
        target_email: opt_text(r.target_email),
        max_uses: r.max_uses,
        use_count: r.use_count,
        status: r.status@,
        assign_role_ids: views(r.assign_role_ids@),
        expires_at: opt_text(r.expires_at),
        created_at: r.created_at@,
    }
}

/// A stored invite as its tenant sees it: identifiers in hexadecimal,
/// times in RFC 3339.
pub fn invite_to_response(invite: Invite) -> (response: InviteResponse)
    requires
        invite.id is Some,
    ensures
        response_view(response) == (InviteResponseView {
            id: hex_text(invite.id.unwrap()@, 24),
            code: invite.code@,
            tenant_id: hex_text(invite.tenant_id@, 24),
            inviter_id: hex_text(invite.inviter_id@, 24),
            target_email: opt_text(invite.target_email),
            max_uses: invite.max_uses,
            use_count: invite.use_count,
            status: status_text(invite.status),
            assign_role_ids: Seq::new(
                invite.assign_role_ids@.len(),
                |k: int| hex_text(invite.assign_role_ids@[k]@, 24),
            ),
            expires_at: match invite.expires_at {
                Some(at) => Some(rfc3339_of(at)),
                None => None,
            },
            created_at: rfc3339_of(invite.created_at),
        }),
{
    let id = match &invite.id {
        Some(id) => id.to_hex(),
        None => String::new(),
    };
    let ghost roles = Seq::new(
        invite.assign_role_ids@.len(),
        |k: int| hex_text(invite.assign_role_ids@[k]@, 24),
    );
    let mut assign_role_ids: Vec<String> = Vec::new();
    let mut k: usize = 0;
    while k < invite.assign_role_ids.len()
        invariant
            k <= invite.assign_role_ids.len(),
            roles == Seq::new(
                invite.assign_role_ids@.len(),
                |k: int| hex_text(invite.assign_role_ids@[k]@, 24),
            ),
            views(assign_role_ids@) == roles.take(k as int),
        decreases invite.assign_role_ids.len() - k,
    {
        let ghost before = views(assign_role_ids@);
        let hex = invite.assign_role_ids[k].to_hex();
        let ghost text = hex@;
        assign_role_ids.push(hex);
        proof {
            assert(views(assign_role_ids@) =~= before.push(text));
            assert(views(assign_role_ids@) =~= roles.take(k as int + 1));
        }
        k += 1;
    }
    proof {
        assert(roles.take(roles.len() as int) =~= roles);
    }
    InviteResponse {
        id,
        code: invite.code,
        tenant_id: invite.tenant_id.to_hex(),
        inviter_id: invite.inviter_id.to_hex(),
        target_email: invite.target_email,
        max_uses: invite.max_uses,
        use_count: invite.use_count,
        status: status_name(invite.status).to_owned(),
        assign_role_ids,
        expires_at: match invite.expires_at {
            Some(at) => Some(rfc3339(at)),
            None => None,
        },
        created_at: rfc3339(invite.created_at),
    }
}

/// Whether `user_email` may accept the invite at `now`, and if not, why:
/// an invite that cannot be used is a bad request, an invite for another
/// address is forbidden, and a member cannot join again.
pub open spec fn acceptance_spec(
    valid: Result<(), InviteRefusal>,
    target_email: Option<Seq<char>>,
    user_email: Seq<char>,
    already_member: bool,
) -> Option<ApiErrorView> {
    match valid {
        Err(InviteRefusal::Revoked) => Some(ApiErrorView::BadRequest("Invite has been revoked"@)),
        Err(InviteRefusal::FullyUsed) => Some(
            ApiErrorView::BadRequest("Invite has been fully used"@),
        ),
        Err(InviteRefusal::Expired) => Some(ApiErrorView::BadRequest("Invite has expired"@)),
        Ok(_) => if target_email is Some && target_email.unwrap() != user_email {
            Some(ApiErrorView::Forbidden("This invite is for a different email address"@))
        } else if already_member {
            Some(ApiErrorView::Conflict("Already a member of this tenant"@))
        } else {
            None
        },
    }
}

/// Checks whether a user may accept an invite.
pub fn check_acceptance(invite: &Invite, now: i64, user_email: &str, already_member: bool) -> (accepted:
    Result<(), ApiError>)
    ensures
        match acceptance_spec(
            validity(invite.status, invite.expires_at, invite.max_uses, invite.use_count, now),
            opt_text(invite.target_email),
            user_email@,
            already_member,
        ) {
            Some(expected) => accepted matches Err(e) && e@ == expected,
            None => accepted is Ok,
        },
{
    match validate(invite, now) {
        Err(refusal) => {
            return Err(ApiError::BadRequest(refusal_message(refusal).to_owned()));
        },
        Ok(_) => {},
    }
    match &invite.target_email {
        Some(target) => {
            if !str_eq(target.as_str(), user_email) {
                return Err(
                    ApiError::Forbidden("This invite is for a different email address".to_owned()),
                );
            }
        },
        None => {},
    }
    if already_member {
        return Err(ApiError::Conflict("Already a member of this tenant".to_owned()));
    }
    Ok(())
}

} // verus!
