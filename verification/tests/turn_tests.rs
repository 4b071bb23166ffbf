use roomler_core::ids::ObjectId;
use roomler_core::turn::{
    force_relay, ice_servers, turn_credential, turn_urls, turn_username, TurnSettings,
};

fn settings(url: Option<&str>, secret: Option<&str>) -> TurnSettings {
    TurnSettings {
        url: url.map(|s| s.to_string()),
        shared_secret: secret.map(|s| s.to_string()),
        username: Some("static-user".to_string()),
        password: Some("static-pass".to_string()),
        force_relay: None,
    }
}

#[test]
fn turn_credentials_are_the_hmac_of_the_username() {
    let user = ObjectId::parse_str("000000000000000000000001").unwrap();
    let t: u64 = 1_700_000_000;
    let username = turn_username(t, &user);
    assert_eq!(username, format!("{}:000000000000000000000001", t + 86400));
    assert_eq!(username, "1700086400:000000000000000000000001");
    assert_eq!(turn_credential("s", &username), "h58Cmvg4UK0bCuScsH7fBX2naaQ=");
    let servers = ice_servers(&settings(Some("turn:turn.example.org:3478"), Some("s")), t, &user);
    assert_eq!(servers.len(), 1);
    assert_eq!(servers[0].username, username);
    assert_eq!(servers[0].credential, "h58Cmvg4UK0bCuScsH7fBX2naaQ=");
}

#[test]
fn turn_credential_depends_on_secret_and_username() {
    let a = turn_credential("s", "1:a");
    assert_ne!(a, turn_credential("t", "1:a"));
    assert_ne!(a, turn_credential("s", "2:a"));
    assert_eq!(a.len(), 28);
    assert_ne!(a, "1:a");
}

#[test]
fn turn_urls_add_tcp_and_tls_variants() {
    assert_eq!(
        turn_urls("turn:turn.example.org:3478"),
        vec![
            "turn:turn.example.org:3478".to_string(),
            "turn:turn.example.org:3478?transport=tcp".to_string(),
            "turns:turn.example.org:5349?transport=tcp".to_string(),
        ]
    );
    assert_eq!(
        turn_urls("turn:host"),
        vec!["turn:host".to_string(), "turn:host?transport=tcp".to_string(), "turns:host?transport=tcp".to_string()]
    );
    assert_eq!(
        turn_urls("turn:host:3478?transport=udp"),
        vec!["turn:host:3478?transport=udp".to_string()]
    );
    assert_eq!(turn_urls("turns:host:5349"), vec!["turns:host:5349".to_string()]);
    assert_eq!(turn_urls("stun:host:3478"), vec!["stun:host:3478".to_string()]);
    assert_eq!(turn_urls(""), vec!["".to_string()]);
    assert_eq!(
        turn_urls("turn:3478:3478"),
        vec![
            "turn:3478:3478".to_string(),
            "turn:3478:3478?transport=tcp".to_string(),
            "turns:5349:5349?transport=tcp".to_string()
        ]
    );
}

#[test]
fn without_a_secret_the_static_credentials_are_used() {
    let user = ObjectId::from_value(5).unwrap();
    let servers = ice_servers(&settings(Some("stun:host"), None), 0, &user);
    assert_eq!(servers.len(), 1);
    assert_eq!(servers[0].urls, vec!["stun:host".to_string()]);
    assert_eq!(servers[0].username, "static-user");
    assert_eq!(servers[0].credential, "static-pass");
    let bare = TurnSettings {
        url: Some("turn:h".to_string()),
        shared_secret: None,
        username: None,
        password: None,
        force_relay: Some(true),
    };
    let servers = ice_servers(&bare, 0, &user);
    assert_eq!(servers[0].username, "");
    assert_eq!(servers[0].credential, "");
    assert!(force_relay(&bare));
}

#[test]
fn without_a_url_there_are_no_ice_servers() {
    let user = ObjectId::from_value(5).unwrap();
    assert!(ice_servers(&settings(None, Some("s")), 0, &user).is_empty());
    assert!(!force_relay(&settings(None, None)));
    let off = TurnSettings { url: None, shared_secret: None, username: None, password: None, force_relay: Some(false) };
    assert!(!force_relay(&off));
}

#[test]
fn the_expiry_stops_at_the_largest_time() {
    let user = ObjectId::from_value(1).unwrap();
    assert_eq!(turn_username(0, &user), "86400:000000000000000000000001");
    assert_eq!(
        turn_username(u64::MAX - 10, &user),
        format!("{}:000000000000000000000001", u64::MAX)
    );
}
