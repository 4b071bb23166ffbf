use crate::crypto::{base64_of, base64_standard, hmac_sha1, hmac_sha1_of};
use crate::ids::{hex_text, ObjectId};
use crate::seqs::views;
use crate::text::{
    opt_text, chars_of, contains, contains_text, decimal, push_decimal, push_text, replace_all,
    replaced_all, starts_with, string_of,
};
use vstd::prelude::*;
use vstd::utf8::encode_utf8;

verus! {

/// How long a time-limited TURN credential stays valid: one day.
pub const TURN_CREDENTIAL_TTL_SECS: u64 = 86400;

/// How the server's TURN relay is configured.
#[derive(Debug)]
pub struct TurnSettings {
    pub url: Option<String>,
    pub shared_secret: Option<String>,
    pub username: Option<String>,
    pub password: Option<String>,
    pub force_relay: Option<bool>,
}

/// An ICE server as announced to a client with its transports.
#[derive(Debug)]
pub struct IceServer {
    pub urls: Vec<String>,
    pub username: String,
    pub credential: String,
}

/// What an [`IceServer`] holds, as mathematical values.
pub ghost struct IceServerView {
    pub urls: Seq<Seq<char>>,
    pub username: Seq<char>,
    pub credential: Seq<char>,
}

impl View for IceServer {
    type V = IceServerView;

    open spec fn view(&self) -> IceServerView {
        IceServerView {
            urls: views(self.urls@),
            username: self.username@,
            credential: self.credential@,
        }
    }
}

/// When a credential issued at `now_secs` expires, in seconds since the epoch.
pub open spec fn expiry_of(now_secs: u64) -> u64 {
    if now_secs + TURN_CREDENTIAL_TTL_SECS <= u64::MAX {
        (now_secs + TURN_CREDENTIAL_TTL_SECS) as u64
    } else {
        u64::MAX
    }
}

/// The user name of a time-limited credential: the expiry and the user, separated by a colon.
pub open spec fn turn_username_text(now_secs: u64, user: nat) -> Seq<char> {
    decimal(expiry_of(now_secs) as nat) + seq![':'] + hex_text(user, 24)
}

/// The credential that goes with a user name: the base64 text of the
/// HMAC-SHA1 tag of the user name under the shared secret.
pub open spec fn turn_credential_text(secret: Seq<char>, username: Seq<char>) -> Seq<char> {
    base64_of(hmac_sha1_of(encode_utf8(secret), encode_utf8(username)))
}

/// Whether a relay URL gets the TCP and TLS variants beside it: it names
/// the `turn:` scheme and fixes no transport.
pub open spec fn has_variants(url: Seq<char>) -> bool {
    "turn:"@.is_prefix_of(url) && !contains_text(url, "?transport="@)
}

/// The TLS variant of a `turn:` URL: the `turns:` scheme on port 5349, over TCP.
pub open spec fn tls_variant(url: Seq<char>) -> Seq<char> {
    replaced_all("turns:"@ + url.skip(5), ":3478"@, ":5349"@) + "?transport=tcp"@
}

/// The URLs announced for the relay at `url`: the URL itself and, where it
/// has variants, the same over TCP and the TLS variant.
pub open spec fn turn_urls_text(url: Seq<char>) -> Seq<Seq<char>> {
    if has_variants(url) {
        seq![url, url + "?transport=tcp"@, tls_variant(url)]
    } else {
        seq![url]
    }
}

/// The ICE servers announced to `user` at `now_secs`: none without a relay
/// URL; else one, with a time-limited credential where a shared secret is
/// configured and the configured static credential (empty where absent)
/// where none is.
pub open spec fn ice_servers_view(
    url: Option<Seq<char>>,
    shared_secret: Option<Seq<char>>,
    username: Option<Seq<char>>,
    password: Option<Seq<char>>,
    now_secs: u64,
    user: nat,
) -> Seq<IceServerView> {
    match url {
        None => Seq::empty(),
        Some(u) => {
            let (name, credential) = match shared_secret {
                Some(secret) => (
                    turn_username_text(now_secs, user),
                    turn_credential_text(secret, turn_username_text(now_secs, user)),
                ),
                None => (
                    match username {
                        Some(n) => n,
                        None => Seq::empty(),
                    },
                    match password {
                        Some(p) => p,
                        None => Seq::empty(),
                    },
                ),
            };
            seq![IceServerView { urls: turn_urls_text(u), username: name, credential }]
        },
    }
}

/// The user name of the credential issued to `user` at `now_secs`.
pub fn turn_username(now_secs: u64, user: &ObjectId) -> (name: String)
    ensures
        name@ == turn_username_text(now_secs, user@),
{
    let expiry: u64 = if now_secs <= u64::MAX - TURN_CREDENTIAL_TTL_SECS {
        now_secs + TURN_CREDENTIAL_TTL_SECS
    } else {
        u64::MAX
    };
    let mut name = String::new();
    push_decimal(&mut name, expiry);
    name.push(':');
    let hex = user.to_hex();
    push_text(&mut name, hex.as_str());
    proof {
        assert(name@ =~= decimal(expiry as nat) + seq![':'] + hex_text(user@, 24));
    }
    name
}

/// The credential that goes with `username` under the shared secret.
pub fn turn_credential(secret: &str, username: &str) -> (credential: String)
    ensures
        credential@ == turn_credential_text(secret@, username@),
{
    let tag = hmac_sha1(secret.as_bytes(), username.as_bytes());
    base64_standard(tag.as_slice())
}

/// The URLs announced for the relay at `url`.
pub fn turn_urls(url: &str) -> (urls: Vec<String>)
    ensures
        views(urls@) == turn_urls_text(url@),
{
    let chars = chars_of(url);
    let mut urls: Vec<String> = Vec::new();
    urls.push(url.to_owned());
    let turn = chars_of("turn:");
    proof {
        reveal_strlit("turn:");
    }
    if starts_with(&chars, &turn) && !contains(&chars, &chars_of("?transport=")) {
        let mut tcp = url.to_owned();
        push_text(&mut tcp, "?transport=tcp");
        urls.push(tcp);
        let mut renamed: Vec<char> = chars_of("turns:");
        let mut i: usize = 5;
        while i < chars.len()
            invariant
                5 <= i <= chars.len(),
                renamed@ == "turns:"@ + chars@.subrange(5, i as int),
            decreases chars.len() - i,
        {
            renamed.push(chars[i]);
            proof {
                assert("turns:"@ + chars@.subrange(5, i as int + 1) =~= ("turns:"@
                    + chars@.subrange(5, i as int)).push(chars@[i as int]));
            }
            i += 1;
        }
        proof {
            assert(chars@.subrange(5, chars@.len() as int) =~= chars@.skip(5));
        }
        let moved = replace_all(&renamed, &chars_of(":3478"), &chars_of(":5349"));
        let mut tls = string_of(&moved);
        push_text(&mut tls, "?transport=tcp");
        urls.push(tls);
        proof {
            assert(views(urls@) =~= turn_urls_text(url@));
        }
    } else {
        proof {
            assert(views(urls@) =~= turn_urls_text(url@));
        }
    }
    urls
}

/// The ICE servers to announce to `user` at `now_secs`, in seconds since the epoch.
pub fn ice_servers(settings: &TurnSettings, now_secs: u64, user: &ObjectId) -> (servers: Vec<
    IceServer,
>)
    ensures
        views(servers@) == ice_servers_view(
            opt_text(settings.url),
            opt_text(settings.shared_secret),
            opt_text(settings.username),
            opt_text(settings.password),
            now_secs,
            user@,
        ),
{
    let mut servers: Vec<IceServer> = Vec::new();
    let url = match &settings.url {
        Some(u) => u,
        None => {
            proof {
                assert(views(servers@) =~= Seq::<
                    IceServerView,
                >::empty());
            }
            return servers;
        },
    };
    let username: String;
    let credential: String;
    match &settings.shared_secret {
        Some(secret) => {
            username = turn_username(now_secs, user);
            credential = turn_credential(secret.as_str(), username.as_str());
        },
        None => {
            username = match &settings.username {
                Some(n) => n.clone(),
                None => String::new(),
            };
            credential = match &settings.password {
                Some(p) => p.clone(),
                None => String::new(),
            };
        },
    }
    let server = IceServer { urls: turn_urls(url.as_str()), username, credential };
    let ghost view = server@;
    servers.push(server);
    proof {
        assert(views(servers@) =~= seq![view]);
    }
    servers
}

/// Whether clients are to use the relay only.
pub fn force_relay(settings: &TurnSettings) -> (forced: bool)
    ensures
        forced == (settings.force_relay == Some(true)),
{
    match settings.force_relay {
        Some(f) => f,
        None => false,
    }
}

} // verus!
