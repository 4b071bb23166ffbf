use roomler_core::api::{
    authorize_upgrade, collect_author_ids, has_profile_changes, has_room_changes, invite_hours,
    mention_recipients, notification_body, notification_link, notification_title, parse_ids_lenient,
    parse_oid, role_defaults, to_response, upgrade_status, ApiError, AuthError, CreateRoleRequest,
    DaoError, UpdateProfileRequest, UpdateRoomRequest, UpgradeRefusal,
};
use roomler_core::asr::{request_for, stream_config_for, AudioEncoding, RemoteNimBackend};
use roomler_core::ids::ObjectId;
use roomler_core::invite::{
    check_acceptance, expiry, increment_use_count, invite_to_response, new_invite,
    refusal_message, status_name, validate, CreateInviteParams, InviteRefusal, InviteStatus,
};
use roomler_core::membership::{has_open_session, CallError, JoinKind, RoomCall};
use roomler_core::models::{CallState, MediaSettings, ParticipantRole, Room};
use roomler_core::oauth::{
    callback_redirect, session_cookie, facebook_user_info, full_name, github_user_info, microsoft_user_info, parse_provider,
    primary_email, profile_user_info, token_request, user_info_url, GitHubEmail, OAuthError,
    OAuthService, OAuthSettings, ProfileClaims, Provider, ProviderCredentials,
};
use roomler_core::rooms::{
    new_room, ancestor_paths, base_username, escape_query, generate_meeting_code, join_url, may_delete_role,
    meeting_code, room_path, shown_name, unique_username,
};

fn oid(n: u128) -> ObjectId {
    ObjectId::from_value(n).unwrap()
}

fn s(text: &str) -> Option<String> {
    Some(text.to_string())
}

#[test]
fn api_errors_have_status_code_and_text() {
    let cases = [
        (ApiError::NotFound("a".to_string()), 404, "not_found", "Not found: a"),
        (ApiError::BadRequest("b".to_string()), 400, "bad_request", "Bad request: b"),
        (ApiError::Unauthorized("c".to_string()), 401, "unauthorized", "Unauthorized: c"),
        (ApiError::Forbidden("d".to_string()), 403, "forbidden", "Forbidden: d"),
        (ApiError::Conflict("e".to_string()), 409, "conflict", "Conflict: e"),
        (ApiError::Internal("f".to_string()), 500, "internal", "Internal error: f"),
        (ApiError::Validation("g".to_string()), 422, "validation", "Validation: g"),
    ];
    for (error, status, code, text) in cases {
        assert_eq!(error.status(), status);
        assert_eq!(error.code(), code);
        assert_eq!(error.to_string(), text);
        assert_eq!(error.message().len(), 1);
    }
}

#[test]
fn store_and_auth_failures_map_to_api_errors() {
    assert!(matches!(ApiError::from_dao(DaoError::NotFound), ApiError::NotFound(m) if m == "Resource not found"));
    assert!(matches!(ApiError::from_dao(DaoError::DuplicateKey("k".to_string())), ApiError::Conflict(m) if m == "k"));
    assert!(matches!(ApiError::from_dao(DaoError::Forbidden("f".to_string())), ApiError::Forbidden(m) if m == "f"));
    assert!(matches!(ApiError::from_dao(DaoError::Validation("v".to_string())), ApiError::Validation(m) if m == "v"));
    assert!(matches!(ApiError::from_dao(DaoError::Mongo("m".to_string())), ApiError::Internal(m) if m == "m"));
    assert!(matches!(ApiError::from_dao(DaoError::BsonSer("s".to_string())), ApiError::Internal(_)));
    assert!(matches!(ApiError::from_dao(DaoError::BsonDe("d".to_string())), ApiError::Internal(_)));
    assert!(matches!(ApiError::from_auth(AuthError::InvalidCredentials), ApiError::Unauthorized(m) if m == "Invalid credentials"));
    assert!(matches!(ApiError::from_auth(AuthError::TokenExpired), ApiError::Unauthorized(m) if m == "Token expired"));
    assert!(matches!(ApiError::from_auth(AuthError::InvalidToken("t".to_string())), ApiError::Unauthorized(m) if m == "t"));
    assert!(matches!(ApiError::from_auth(AuthError::HashError("h".to_string())), ApiError::Internal(m) if m == "h"));
    assert!(matches!(
        ApiError::from_oauth(OAuthError::UnknownProvider("x".to_string())),
        ApiError::BadRequest(m) if m == "Unknown provider: x"
    ));
    assert!(matches!(
        ApiError::from_oauth(OAuthError::ProviderNotConfigured("github".to_string())),
        ApiError::BadRequest(m) if m == "Provider not configured: github"
    ));
    assert!(matches!(ApiError::from_oauth(OAuthError::InvalidState), ApiError::BadRequest(m) if m == "Invalid OAuth state"));
    assert!(matches!(
        ApiError::from_oauth(OAuthError::TokenExchangeFailed("502".to_string())),
        ApiError::Internal(m) if m == "Token exchange failed: 502"
    ));
    assert!(matches!(
        ApiError::from_oauth(OAuthError::UserInfoFailed("no".to_string())),
        ApiError::Internal(m) if m == "User info fetch failed: no"
    ));
    assert_eq!(OAuthError::InvalidState.to_string(), "Invalid state parameter");
}

#[test]
fn identifiers_in_requests_are_checked() {
    assert_eq!(parse_oid("0000000000000000000000ff").unwrap().value(), 255);
    assert!(matches!(parse_oid("ff"), Err(ApiError::BadRequest(m)) if m == "Invalid ObjectId: ff"));
    let ids = parse_ids_lenient(&vec![
        "000000000000000000000002".to_string(),
        "bad".to_string(),
        "000000000000000000000001".to_string(),
    ]);
    assert_eq!(ids, vec![oid(2), oid(1)]);
    assert_eq!(authorize_upgrade(None), Err(UpgradeRefusal::Unauthorized));
    assert_eq!(authorize_upgrade(Some("me")), Err(UpgradeRefusal::InvalidUser));
    assert_eq!(authorize_upgrade(Some("000000000000000000000009")), Ok(oid(9)));
    assert_eq!(upgrade_status(UpgradeRefusal::Unauthorized), 401);
    assert_eq!(upgrade_status(UpgradeRefusal::InvalidUser), 400);
}

#[test]
fn author_ids_are_sorted_and_unique() {
    let ids = vec![oid(5), oid(1), oid(5), oid(3), oid(1), oid(9)];
    assert_eq!(collect_author_ids(&ids), vec![oid(1), oid(3), oid(5), oid(9)]);
    assert!(collect_author_ids(&Vec::new()).is_empty());
    assert_eq!(collect_author_ids(&vec![oid(2), oid(2)]), vec![oid(2)]);
}

#[test]
fn mentions_notify_everyone_or_those_named() {
    let told = vec![oid(1), oid(2)];
    let named = vec![oid(3), oid(9), oid(2)];
    assert_eq!(mention_recipients(true, &named, &told, &oid(9)), told);
    assert_eq!(mention_recipients(false, &named, &told, &oid(9)), vec![oid(3), oid(2)]);
    assert_eq!(notification_title("general"), "Mentioned in #general");
    assert_eq!(notification_link("t1", "r1"), "/tenant/t1/room/r1");
    assert_eq!(notification_body("short"), "short");
    let long: String = "ä".repeat(250);
    assert_eq!(notification_body(&long), "ä".repeat(200));
    assert_eq!(notification_body(&"x".repeat(200)), "x".repeat(200));
}

#[test]
fn request_defaults() {
    assert_eq!(invite_hours(None), 168);
    assert_eq!(invite_hours(Some(0)), 0);
    let role = CreateRoleRequest { name: "r".to_string(), description: None, color: None, permissions: None, position: None };
    assert_eq!(role_defaults(&role), (0, 100));
    let role = CreateRoleRequest { name: "r".to_string(), description: None, color: None, permissions: Some(6), position: Some(2) };
    assert_eq!(role_defaults(&role), (6, 2));
    let mut room = UpdateRoomRequest { name: None, topic: None, purpose: None, is_open: None, is_archived: None, is_read_only: None };
    assert!(!has_room_changes(&room));
    room.is_archived = Some(false);
    assert!(has_room_changes(&room));
    let mut profile = UpdateProfileRequest { display_name: None, bio: None, avatar: None, locale: None, timezone: None };
    assert!(!has_profile_changes(&profile));
    profile.timezone = s("UTC");
    assert!(has_profile_changes(&profile));
    assert!(may_delete_role(false, false));
    assert!(!may_delete_role(true, false));
    assert!(!may_delete_role(false, true));
}

fn room(id: Option<ObjectId>, state: CallState) -> Room {
    Room {
        id,
        tenant_id: oid(1),
        parent_id: Some(oid(0xabc)),
        name: "standup".to_string(),
        path: "team.standup".to_string(),
        emoji: None,
        topic: None,
        purpose: None,
        icon: None,
        position: 0,
        is_open: true,
        is_archived: false,
        is_read_only: false,
        is_default: false,
        permission_overwrites: Vec::new(),
        tags: Vec::new(),
        media_settings: Some(MediaSettings {
            audio_enabled: true,
            video_enabled: true,
            screen_share_enabled: false,
            recording_enabled: false,
            transcription_enabled: true,
            max_participants: None,
        }),
        conference_settings: None,
        conference_status: state,
        meeting_code: s("123-456-789"),
        join_url: s("/join/123-456-789"),
        organizer_id: None,
        co_organizer_ids: Vec::new(),
        creator_id: oid(2),
        last_message_id: None,
        last_activity_at: None,
        member_count: 3,
        message_count: 40,
        participant_count: 2,
        peak_participant_count: 2,
        actual_start_time: None,
        actual_end_time: None,
        created_at: 0,
        updated_at: 0,
        deleted_at: None,
    }
}

#[test]
fn rooms_are_shown_with_hex_identifiers() {
    let shown = to_response(room(Some(oid(0x10)), CallState::InProgress));
    assert_eq!(shown.id, "000000000000000000000010");
    assert_eq!(shown.parent_id.as_deref(), Some("000000000000000000000abc"));
    assert_eq!((shown.name.as_str(), shown.path.as_str()), ("standup", "team.standup"));
    assert!(shown.is_open && shown.has_media);
    assert_eq!((shown.member_count, shown.message_count, shown.participant_count), (3, 40, 2));
    assert_eq!(shown.conference_status.as_deref(), Some("\"in_progress\""));
    assert_eq!(shown.meeting_code.as_deref(), Some("123-456-789"));
    assert_eq!(to_response(room(Some(oid(1)), CallState::Idle)).conference_status, None);
    assert_eq!(to_response(room(Some(oid(1)), CallState::Ended)).conference_status.as_deref(), Some("\"ended\""));
}

#[test]
fn invites_are_validated_by_status_expiry_and_uses() {
    let params = CreateInviteParams { target_email: None, max_uses: Some(2), expires_in_hours: Some(1), assign_role_ids: vec![oid(7)] };
    let mut invite = new_invite(oid(1), oid(2), params, "code".to_string(), 1000);
    assert_eq!(invite.expires_at, Some(3_601_000));
    assert_eq!(invite.max_uses, Some(2));
    assert_eq!(invite.status, InviteStatus::Active);
    assert_eq!((invite.use_count, invite.created_at, invite.updated_at), (0, 1000, 1000));
    assert_eq!(validate(&invite, 3_601_000), Ok(()));
    assert_eq!(validate(&invite, 3_601_001), Err(InviteRefusal::Expired));
    assert!(increment_use_count(&mut invite, 2000));
    assert_eq!((invite.use_count, invite.status, invite.updated_at), (1, InviteStatus::Active, 2000));
    assert!(increment_use_count(&mut invite, 3000));
    assert_eq!((invite.use_count, invite.status), (2, InviteStatus::Exhausted));
    assert!(!increment_use_count(&mut invite, 4000));
    assert_eq!((invite.use_count, invite.updated_at), (2, 3000));
    assert_eq!(validate(&invite, 0), Err(InviteRefusal::FullyUsed));
    invite.status = InviteStatus::Active;
    assert_eq!(validate(&invite, 0), Err(InviteRefusal::FullyUsed));
    invite.status = InviteStatus::Revoked;
    assert_eq!(validate(&invite, 0), Err(InviteRefusal::Revoked));
    invite.status = InviteStatus::Expired;
    assert_eq!(validate(&invite, 0), Err(InviteRefusal::Expired));
    assert_eq!(refusal_message(InviteRefusal::Revoked), "Invite has been revoked");
    assert_eq!(refusal_message(InviteRefusal::FullyUsed), "Invite has been fully used");
    assert_eq!(refusal_message(InviteRefusal::Expired), "Invite has expired");
}

#[test]
fn an_addressed_invite_is_for_one_use() {
    let params = CreateInviteParams { target_email: s("a@b.c"), max_uses: Some(50), expires_in_hours: None, assign_role_ids: Vec::new() };
    let invite = new_invite(oid(1), oid(2), params, "code".to_string(), 5);
    assert_eq!(invite.max_uses, Some(1));
    assert_eq!(invite.expires_at, None);
    assert_eq!(validate(&invite, i64::MAX), Ok(()));
    let open = CreateInviteParams { target_email: None, max_uses: None, expires_in_hours: None, assign_role_ids: Vec::new() };
    let mut invite = new_invite(oid(1), oid(2), open, "code".to_string(), 5);
    for _ in 0..10 {
        assert!(increment_use_count(&mut invite, 6));
    }
    assert_eq!((invite.use_count, invite.status), (10, InviteStatus::Active));
    assert_eq!(expiry(0, 168), 604_800_000);
    assert_eq!(expiry(i64::MAX - 1, 1), i64::MAX);
    assert_eq!(expiry(0, u64::MAX), i64::MAX);
    assert_eq!(expiry(-3_600_000, 1), 0);
}

#[test]
fn meeting_codes_and_paths() {
    assert_eq!(meeting_code(100, 555, 998), "100-555-998");
    for _ in 0..50 {
        let code = generate_meeting_code();
        let parts: Vec<u32> = code.split('-').map(|p| p.parse().unwrap()).collect();
        assert_eq!(parts.len(), 3);
        assert!(parts.iter().all(|p| (100..999).contains(p)), "{code}");
        assert_eq!(code.len(), 11);
    }
    assert_eq!(join_url("100-555-998"), "/join/100-555-998");
    assert_eq!(room_path(None, "general"), "general");
    assert_eq!(room_path(Some("team.dev"), "rust"), "team.dev.rust");
    assert_eq!(ancestor_paths("a.b.c"), vec!["a".to_string(), "a.b".to_string()]);
    assert!(ancestor_paths("solo").is_empty());
    assert!(ancestor_paths("").is_empty());
    assert_eq!(ancestor_paths("a."), vec!["a".to_string()]);
    assert_eq!(ancestor_paths(".a"), vec!["".to_string()]);
}

#[test]
fn search_text_is_escaped() {
    assert_eq!(escape_query("c++ (v1.0)?"), "c\\+\\+ \\(v1\\.0\\)\\?");
    assert_eq!(escape_query(".*+?^${}()|[]\\"), "\\.\\*\\+\\?\\^\\$\\{\\}\\(\\)\\|\\[\\]\\\\");
    assert_eq!(escape_query("plain text"), "plain text");
    assert_eq!(escape_query(""), "");
}

#[test]
fn user_names_come_from_display_names() {
    assert_eq!(base_username("Ada Lovelace"), "ada_lovelace");
    assert_eq!(base_username("  J.R.R. Tolkien! "), "__jrr_tolkien_");
    assert_eq!(base_username("Ünï-Cödé 42"), "ünïcödé_42");
    assert_eq!(base_username(""), "");
    assert_eq!(unique_username("ada", "1a2b3c"), "ada_1a2b3c");
    assert_eq!(shown_name("Ada", "ada1"), s("Ada"));
    assert_eq!(shown_name("", "ada1"), s("ada1"));
    assert_eq!(shown_name("", ""), None);
}

fn oauth() -> OAuthService {
    let creds = |id: &str| ProviderCredentials { client_id: id.to_string(), client_secret: format!("{id}-secret") };
    OAuthService::new(OAuthSettings {
        base_url: "http://localhost:5001".to_string(),
        google: creds("g-id"),
        facebook: creds("f-id"),
        github: creds(""),
        linkedin: creds("l-id"),
        microsoft: creds("m-id"),
    })
}

#[test]
fn auth_urls_carry_the_encoded_callback_and_state() {
    let service = oauth();
    assert_eq!(service.callback_url("google"), "http://localhost:5001/api/oauth/callback/google");
    assert_eq!(
        service.build_auth_url("google", "a b&c/ü").unwrap(),
        "https://accounts.google.com/o/oauth2/v2/auth?client_id=g-id&redirect_uri=http%3A%2F%2Flocalhost%3A5001%2Fapi%2Foauth%2Fcallback%2Fgoogle&response_type=code&scope=email+profile&state=a%20b%26c%2F%C3%BC&access_type=offline"
    );
    assert_eq!(
        service.build_auth_url("facebook", "s").unwrap(),
        "https://www.facebook.com/v18.0/dialog/oauth?client_id=f-id&redirect_uri=http%3A%2F%2Flocalhost%3A5001%2Fapi%2Foauth%2Fcallback%2Ffacebook&response_type=code&scope=email&state=s"
    );
    assert_eq!(
        service.build_auth_url("linkedin", "s").unwrap(),
        "https://www.linkedin.com/oauth/v2/authorization?client_id=l-id&redirect_uri=http%3A%2F%2Flocalhost%3A5001%2Fapi%2Foauth%2Fcallback%2Flinkedin&response_type=code&scope=openid+profile+email&state=s"
    );
    assert_eq!(
        service.build_auth_url("microsoft", "s").unwrap(),
        "https://login.microsoftonline.com/common/oauth2/v2.0/authorize?client_id=m-id&redirect_uri=http%3A%2F%2Flocalhost%3A5001%2Fapi%2Foauth%2Fcallback%2Fmicrosoft&response_type=code&scope=openid+profile+email+User.Read&state=s"
    );
    assert!(matches!(service.build_auth_url("github", "s"), Err(OAuthError::ProviderNotConfigured(p)) if p == "github"));
    assert!(matches!(service.build_auth_url("myspace", "s"), Err(OAuthError::UnknownProvider(p)) if p == "myspace"));
    assert_eq!(service.provider_config("google").unwrap(), ("g-id".to_string(), "g-id-secret".to_string()));
    assert!(matches!(service.provider_config("Google"), Err(OAuthError::UnknownProvider(_))));
}

#[test]
fn github_auth_url_when_configured() {
    let mut service = oauth();
    service.settings.github.client_id = "gh".to_string();
    assert_eq!(
        service.build_auth_url("github", "x y").unwrap(),
        "https://github.com/login/oauth/authorize?client_id=gh&redirect_uri=http%3A%2F%2Flocalhost%3A5001%2Fapi%2Foauth%2Fcallback%2Fgithub&scope=user+user:email&state=x%20y"
    );
}

#[test]
fn providers_and_their_endpoints() {
    assert_eq!(parse_provider("github"), Some(Provider::Github));
    assert_eq!(parse_provider("twitter"), None);
    let (url, how) = token_request(Provider::Facebook);
    assert_eq!(url, "https://graph.facebook.com/v18.0/oauth/access_token");
    assert!(!how.post_form && !how.names_grant_type);
    let (url, how) = token_request(Provider::Github);
    assert_eq!(url, "https://github.com/login/oauth/access_token");
    assert!(how.post_form && how.accepts_json && !how.names_grant_type && how.wants_user_agent);
    for p in [Provider::Google, Provider::Linkedin, Provider::Microsoft] {
        let (_, how) = token_request(p);
        assert!(how.post_form && how.names_grant_type && !how.accepts_json);
    }
    assert_eq!(token_request(Provider::Google).0, "https://oauth2.googleapis.com/token");
    assert_eq!(user_info_url(Provider::Google), "https://www.googleapis.com/userinfo/v2/me");
    assert_eq!(user_info_url(Provider::Github), "https://api.github.com/user");
    assert_eq!(user_info_url(Provider::Microsoft), "https://graph.microsoft.com/v1.0/me");
}

#[test]
fn user_info_falls_back_where_the_provider_is_silent() {
    assert_eq!(full_name(&s("Ada L"), &s("x"), &s("y")), "Ada L");
    assert_eq!(full_name(&None, &s("Ada"), &s("Lovelace")), "Ada Lovelace");
    assert_eq!(full_name(&None, &s("Ada"), &None), "Ada");
    assert_eq!(full_name(&None, &None, &s("Lovelace")), "Lovelace");
    assert_eq!(full_name(&None, &None, &None), "");
    let google = profile_user_info(
        "google",
        ProfileClaims { id: s("g1"), email: None, name: None, given_name: s("Ada"), family_name: None, picture: s("p") },
    );
    assert_eq!((google.provider.as_str(), google.provider_id.as_str()), ("google", "g1"));
    assert_eq!((google.email.as_str(), google.name.as_str()), ("", "Ada"));
    assert_eq!(google.avatar_url, s("p"));
    let linkedin = profile_user_info(
        "linkedin",
        ProfileClaims { id: None, email: s("a@b"), name: s("A"), given_name: None, family_name: None, picture: None },
    );
    assert_eq!((linkedin.provider_id.as_str(), linkedin.email.as_str(), linkedin.name.as_str()), ("", "a@b", "A"));
    let facebook = facebook_user_info("f1".to_string(), None, None, s("pic"));
    assert_eq!((facebook.provider.as_str(), facebook.email.as_str(), facebook.name.as_str()), ("facebook", "", ""));
    let emails = vec![
        GitHubEmail { email: "old@x".to_string(), primary: false, verified: true },
        GitHubEmail { email: "new@x".to_string(), primary: true, verified: false },
        GitHubEmail { email: "main@x".to_string(), primary: true, verified: true },
        GitHubEmail { email: "also@x".to_string(), primary: true, verified: true },
    ];
    assert_eq!(primary_email(&emails), "main@x");
    assert_eq!(primary_email(&Vec::new()), "");
    let github = github_user_info(583231, "octocat".to_string(), None, None, &emails);
    assert_eq!((github.provider_id.as_str(), github.email.as_str(), github.name.as_str()), ("583231", "main@x", "octocat"));
    let github = github_user_info(-7, "neg".to_string(), s("own@x"), None, &emails);
    assert_eq!((github.provider_id.as_str(), github.email.as_str()), ("-7", "own@x"));
    assert_eq!(github_user_info(i64::MIN, "m".to_string(), None, None, &Vec::new()).provider_id, "-9223372036854775808");
    let microsoft = microsoft_user_info("m1".to_string(), None, s("Given"), None, s("upn@x"));
    assert_eq!((microsoft.name.as_str(), microsoft.email.as_str()), ("Given", "upn@x"));
    let microsoft = microsoft_user_info("m1".to_string(), s("Shown"), s("Given"), s("mail@x"), s("upn@x"));
    assert_eq!((microsoft.name.as_str(), microsoft.email.as_str()), ("Shown", "mail@x"));
    assert_eq!(microsoft.avatar_url, None);
}

#[test]
fn the_remote_recogniser_maps_languages_to_regions() {
    let backend = RemoteNimBackend::new("http://nim:50051", Some("canary-1b"));
    assert_eq!(backend.endpoint(), "http://nim:50051");
    assert_eq!(backend.name(), "remote_nim");
    assert!(backend.supports_streaming());
    for (hint, code) in [(Some("en"), "en-US"), (Some("de"), "de-DE"), (Some("fr"), "fr-FR"), (Some("es"), "es-ES"), (Some("pt-BR"), "pt-BR"), (None, "en-US")] {
        let config = backend.make_config(hint, 16000);
        assert_eq!(config.language_code, code);
        assert_eq!(config.sample_rate_hertz, 16000);
        assert_eq!(config.max_alternatives, 1);
        assert_eq!(config.model, "canary-1b");
        assert!(config.enable_automatic_punctuation);
        assert_eq!(config.encoding, AudioEncoding::Linear16);
    }
    assert_eq!(backend.make_config(None, u32::MAX).sample_rate_hertz, -1);
    assert_eq!(backend.make_config(None, 0x8000_0000).sample_rate_hertz, i32::MIN);
    assert_eq!(RemoteNimBackend::new("e", None).make_config(None, 1).model, "");
    assert!(backend.supports_language("de") && backend.supports_language("es"));
    assert!(!backend.supports_language("it") && !backend.supports_language("EN"));
    let request = request_for(8000, &s("de"));
    assert_eq!((request.samples, request.sample_rate), (8000, 16000));
    assert_eq!(request.language_hint, s("de"));
    let config = stream_config_for(&None);
    assert_eq!((config.language_hint, config.sample_rate), (None, 16000));
}

#[test]
fn call_start_then_end_then_start_again() {
    let mut call = RoomCall::new(oid(1), oid(2));
    assert_eq!(call.state, CallState::Idle);
    call.start_call(10);
    assert_eq!((call.state, call.actual_start_time), (CallState::InProgress, Some(10)));
    assert_eq!(call.join_participant(oid(5), "Ada".to_string(), "web".to_string(), 11), Ok(JoinKind::Created));
    call.end_call(20);
    assert_eq!((call.state, call.actual_end_time), (CallState::Ended, Some(20)));
    assert_eq!(
        call.join_participant(oid(6), "Bob".to_string(), "web".to_string(), 21),
        Err(CallError::CallEnded)
    );
    assert_eq!(call.members.len(), 1);
    call.start_call(30);
    assert_eq!((call.state, call.actual_start_time), (CallState::InProgress, Some(30)));
    assert_eq!(call.join_participant(oid(6), "Bob".to_string(), "web".to_string(), 31), Ok(JoinKind::Created));
}

#[test]
fn joining_twice_adds_a_session_not_a_member() {
    let mut call = RoomCall::new(oid(1), oid(2));
    let user = oid(5);
    assert!(!call.is_member(&user));
    assert!(call.join(user, 1));
    assert!(!call.join(user, 2));
    assert!(call.is_member(&user));
    assert_eq!((call.member_count, call.participant_count), (1, 0));
    assert_eq!(call.find_participant_name(&user), "00000000");
    call.start_call(5);
    assert_eq!(call.join_participant(user, "Ada".to_string(), "web".to_string(), 10), Ok(JoinKind::Rejoined));
    assert_eq!((call.member_count, call.participant_count), (1, 1));
    assert_eq!(call.join_participant(user, "Other".to_string(), "phone".to_string(), 20), Ok(JoinKind::Appended));
    assert_eq!(call.members.len(), 1);
    assert_eq!((call.member_count, call.participant_count), (1, 1));
    let member = &call.members[0];
    assert_eq!(member.sessions.len(), 2);
    assert_eq!(member.display_name, s("Ada"));
    assert_eq!(member.role, Some(ParticipantRole::Attendee));
    assert!(member.is_video_on && has_open_session(member));
    assert_eq!((member.sessions[1].joined_at, member.sessions[1].device_type.as_str()), (20, "phone"));
    assert_eq!(member.updated_at, 20);
    assert_eq!(call.list_participants(), vec![0]);
    assert_eq!(call.find_participant_name(&user), "Ada");
    assert!(call.leave_participant(&user, 30));
    let member = &call.members[0];
    assert!(member.sessions.iter().all(|x| x.left_at == Some(30)));
    assert!(!has_open_session(member));
    assert_eq!(call.participant_count, 0);
    assert!(call.list_participants().is_empty());
    assert!(call.leave_participant(&user, 40));
    assert!(call.members[0].sessions.iter().all(|x| x.left_at == Some(30)));
    assert_eq!(call.participant_count, 0);
    assert_eq!(call.join_participant(user, "Again".to_string(), "web".to_string(), 50), Ok(JoinKind::Rejoined));
    assert_eq!(call.members[0].display_name, s("Again"));
    assert_eq!(call.join_participant(oid(6), "Bob".to_string(), "web".to_string(), 51), Ok(JoinKind::Created));
    assert_eq!((call.member_count, call.participant_count), (2, 2));
    assert_eq!(call.find_member_user_ids(), vec![user, oid(6)]);
    assert_eq!(call.list_participants(), vec![0, 1]);
    assert_eq!(call.find_participant_name(&oid(0xdeadbeef0000000000000000)), "deadbeef");
}

#[test]
fn invites_are_shown_with_hex_identifiers_and_rfc3339_times() {
    let params = CreateInviteParams {
        target_email: s("ada@example.org"),
        max_uses: None,
        expires_in_hours: Some(1),
        assign_role_ids: vec![oid(0xa), oid(0xb)],
    };
    let mut invite = new_invite(oid(1), oid(2), params, "c0de".to_string(), 1_700_000_000_123);
    assert!(check_acceptance(&invite, 1_700_000_000_200, "ada@example.org", false).is_ok());
    assert!(matches!(
        check_acceptance(&invite, 1_700_000_000_200, "bob@example.org", false),
        Err(ApiError::Forbidden(m)) if m == "This invite is for a different email address"
    ));
    assert!(matches!(
        check_acceptance(&invite, 1_700_000_000_200, "ada@example.org", true),
        Err(ApiError::Conflict(m)) if m == "Already a member of this tenant"
    ));
    assert!(matches!(
        check_acceptance(&invite, 1_800_000_000_000, "bob@example.org", true),
        Err(ApiError::BadRequest(m)) if m == "Invite has expired"
    ));
    invite.id = Some(oid(0xff));
    let shown = invite_to_response(invite);
    assert_eq!(shown.id, "0000000000000000000000ff");
    assert_eq!(shown.tenant_id, "000000000000000000000001");
    assert_eq!(shown.inviter_id, "000000000000000000000002");
    assert_eq!(shown.code, "c0de");
    assert_eq!(shown.target_email, s("ada@example.org"));
    assert_eq!((shown.max_uses, shown.use_count), (Some(1), 0));
    assert_eq!(shown.status, "active");
    assert_eq!(
        shown.assign_role_ids,
        vec!["00000000000000000000000a".to_string(), "00000000000000000000000b".to_string()]
    );
    assert_eq!(shown.created_at, "2023-11-14T22:13:20.123Z");
    assert_eq!(shown.expires_at, s("2023-11-14T23:13:20.123Z"));
    assert_eq!(status_name(InviteStatus::Exhausted), "exhausted");
    assert_eq!(status_name(InviteStatus::Revoked), "revoked");
    assert_eq!(status_name(InviteStatus::Expired), "expired");
}

#[test]
fn sign_in_ends_with_a_cookie_and_a_redirect() {
    assert_eq!(
        session_cookie("tok", 3600),
        "access_token=tok; HttpOnly; Path=/; SameSite=Lax; Max-Age=3600"
    );
    assert_eq!(
        callback_redirect("http://localhost:5001", "tok"),
        "http://localhost:5000/oauth/callback?token=tok"
    );
    assert_eq!(
        callback_redirect("https://roomler.example", "t"),
        "https://roomler.example/oauth/callback?token=t"
    );
}

#[test]
fn new_rooms_get_a_meeting_code_only_with_media() {
    let media = MediaSettings {
        audio_enabled: true,
        video_enabled: false,
        screen_share_enabled: false,
        recording_enabled: false,
        transcription_enabled: false,
        max_participants: Some(8),
    };
    let room = new_room(
        oid(1),
        "standup".to_string(),
        Some(oid(2)),
        room_path(Some("team"), "standup"),
        oid(3),
        true,
        Some(media),
        None,
        meeting_code(123, 456, 789),
        77,
    );
    assert_eq!(room.path, "team.standup");
    assert_eq!(room.meeting_code, s("123-456-789"));
    assert_eq!(room.join_url, s("/join/123-456-789"));
    assert_eq!(room.conference_status, CallState::Idle);
    assert_eq!((room.member_count, room.message_count, room.participant_count), (1, 0, 0));
    assert_eq!((room.created_at, room.updated_at, room.deleted_at), (77, 77, None));
    assert_eq!(room.media_settings, Some(media));
    assert!(room.is_open && !room.is_archived && room.id.is_none());
    let plain = new_room(oid(1), "chat".to_string(), None, "chat".to_string(), oid(3), false, None, None, "1-2-3".to_string(), 0);
    assert_eq!((plain.meeting_code, plain.join_url), (None, None));
}

#[test]
fn leaving_a_room_ends_the_membership() {
    let mut call = RoomCall::new(oid(1), oid(2));
    call.join(oid(5), 1);
    call.join(oid(6), 2);
    assert!(!call.leave(&oid(7)));
    assert!(call.leave(&oid(5)));
    assert!(!call.is_member(&oid(5)) && call.is_member(&oid(6)));
    assert_eq!(call.member_count, 1);
    assert!(!call.leave(&oid(5)));
    assert_eq!(call.find_member_user_ids(), vec![oid(6)]);
}
