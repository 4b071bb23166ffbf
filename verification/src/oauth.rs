use crate::encoding::{percent_encode, percent_encoded};
use crate::text::opt_text;
use crate::text::{
    chars_of, decimal, push_decimal, push_text, replace_all, replaced_all, str_eq, string_of, trim,
    trimmed,
};
use vstd::prelude::*;
use vstd::utf8::encode_utf8;

verus! {

/// Why a sign-in through an identity provider failed.
#[derive(Debug)]
pub enum OAuthError {
    ProviderNotConfigured(String),
    UnknownProvider(String),
    TokenExchangeFailed(String),
    UserInfoFailed(String),
    InvalidState,
}

/// What an [`OAuthError`] holds, as mathematical values.
pub ghost enum OAuthErrorView {
    ProviderNotConfigured(Seq<char>),
    UnknownProvider(Seq<char>),
    TokenExchangeFailed(Seq<char>),
    UserInfoFailed(Seq<char>),
    InvalidState,
}

impl View for OAuthError {
    type V = OAuthErrorView;

    open spec fn view(&self) -> OAuthErrorView {
        match *self {
            OAuthError::ProviderNotConfigured(p) => OAuthErrorView::ProviderNotConfigured(p@),
            OAuthError::UnknownProvider(p) => OAuthErrorView::UnknownProvider(p@),
            OAuthError::TokenExchangeFailed(m) => OAuthErrorView::TokenExchangeFailed(m@),
            OAuthError::UserInfoFailed(m) => OAuthErrorView::UserInfoFailed(m@),
            OAuthError::InvalidState => OAuthErrorView::InvalidState,
        }
    }
}

/// How an [`OAuthError`] reads.
pub open spec fn oauth_error_text(e: OAuthErrorView) -> Seq<char> {
    match e {
        OAuthErrorView::ProviderNotConfigured(p) => "Provider not configured: "@ + p,
        OAuthErrorView::UnknownProvider(p) => "Unknown provider: "@ + p,
        OAuthErrorView::TokenExchangeFailed(m) => "Token exchange failed: "@ + m,
        OAuthErrorView::UserInfoFailed(m) => "User info fetch failed: "@ + m,
        OAuthErrorView::InvalidState => "Invalid state parameter"@,
    }
}

impl OAuthError {
    /// How the error reads.
    pub fn to_string(&self) -> (text: String)
        ensures
            text@ == oauth_error_text(self@),
    {
        match self {
            OAuthError::ProviderNotConfigured(p) => prefixed("Provider not configured: ", p),
            OAuthError::UnknownProvider(p) => prefixed("Unknown provider: ", p),
            OAuthError::TokenExchangeFailed(m) => prefixed("Token exchange failed: ", m),
            OAuthError::UserInfoFailed(m) => prefixed("User info fetch failed: ", m),
            OAuthError::InvalidState => "Invalid state parameter".to_owned(),
        }
    }
}

fn prefixed(prefix: &str, rest: &String) -> (text: String)
    ensures
        text@ == prefix@ + rest@,
{
    let mut text = prefix.to_owned();
    push_text(&mut text, rest.as_str());
    text
}

/// Who a user is according to an identity provider.
#[derive(Debug)]
pub struct OAuthUserInfo {
    pub provider: String,
    pub provider_id: String,
    pub email: String,
    pub name: String,
    pub avatar_url: Option<String>,
}

/// What an [`OAuthUserInfo`] holds, as mathematical values.
pub ghost struct UserInfoView {
    pub provider: Seq<char>,
    pub provider_id: Seq<char>,
    pub email: Seq<char>,
    pub name: Seq<char>,
    pub avatar_url: Option<Seq<char>>,
}

impl View for OAuthUserInfo {
    type V = UserInfoView;

    open spec fn view(&self) -> UserInfoView {
        UserInfoView {
            provider: self.provider@,
            provider_id: self.provider_id@,
            email: self.email@,
            name: self.name@,
            avatar_url: opt_text(self.avatar_url),
        }
    }
}

/// The identity providers that the server knows.
#[derive(Clone, Copy, Debug, PartialEq, Eq, Structural)]
pub enum Provider {
    Google,
    Facebook,
    Github,
    Linkedin,
    Microsoft,
}

/// The provider that a name names.
pub open spec fn provider_of(name: Seq<char>) -> Option<Provider> {
    if name == "google"@ {
        Some(Provider::Google)
    } else if name == "facebook"@ {
        Some(Provider::Facebook)
    } else if name == "github"@ {
        Some(Provider::Github)
    } else if name == "linkedin"@ {
        Some(Provider::Linkedin)
    } else if name == "microsoft"@ {
        Some(Provider::Microsoft)
    } else {
        None
    }
}

/// The provider that a name names.
pub fn parse_provider(name: &str) -> (provider: Option<Provider>)
    ensures
        provider == provider_of(name@),
{
    if str_eq(name, "google") {
        Some(Provider::Google)
    } else if str_eq(name, "facebook") {
        Some(Provider::Facebook)
    } else if str_eq(name, "github") {
        Some(Provider::Github)
    } else if str_eq(name, "linkedin") {
        Some(Provider::Linkedin)
    } else if str_eq(name, "microsoft") {
        Some(Provider::Microsoft)
    } else {
        None
    }
}

/// The client registration of the server at one provider.
#[derive(Debug)]
pub struct ProviderCredentials {
    pub client_id: String,
    pub client_secret: String,
}

/// The server's registrations at the identity providers.
#[derive(Debug)]
pub struct OAuthSettings {
    pub base_url: String,
    pub google: ProviderCredentials,
    pub facebook: ProviderCredentials,
    pub github: ProviderCredentials,
    pub linkedin: ProviderCredentials,
    pub microsoft: ProviderCredentials,
}

impl OAuthSettings {
    /// The registration at `provider`.
    pub open spec fn credentials(self, provider: Provider) -> ProviderCredentials {
        match provider {
            Provider::Google => self.google,
            Provider::Facebook => self.facebook,
            Provider::Github => self.github,
            Provider::Linkedin => self.linkedin,
            Provider::Microsoft => self.microsoft,
        }
    }
}

/// Where a provider's authorization page is, up to the client identifier.
pub open spec fn auth_head(p: Provider) -> Seq<char> {
    match p {
        Provider::Google => "https://accounts.google.com/o/oauth2/v2/auth?client_id="@,
        Provider::Facebook => "https://www.facebook.com/v18.0/dialog/oauth?client_id="@,
        Provider::Github => "https://github.com/login/oauth/authorize?client_id="@,
        Provider::Linkedin => "https://www.linkedin.com/oauth/v2/authorization?client_id="@,
        Provider::Microsoft => "https://login.microsoftonline.com/common/oauth2/v2.0/authorize?client_id="@,
    }
}

/// What stands between the redirect address and the state in a provider's authorization URL.
pub open spec fn auth_middle(p: Provider) -> Seq<char> {
    match p {
        Provider::Google => "&response_type=code&scope=email+profile&state="@,
        Provider::Facebook => "&response_type=code&scope=email&state="@,
        Provider::Github => "&scope=user+user:email&state="@,
        Provider::Linkedin => "&response_type=code&scope=openid+profile+email&state="@,
        Provider::Microsoft => "&response_type=code&scope=openid+profile+email+User.Read&state="@,
    }
}

/// What follows the state in a provider's authorization URL.
pub open spec fn auth_tail(p: Provider) -> Seq<char> {
    match p {
        Provider::Google => "&access_type=offline"@,
        _ => Seq::empty(),
    }
}

/// Where a provider sends the user back to.
pub open spec fn callback_url_text(base_url: Seq<char>, provider: Seq<char>) -> Seq<char> {
    base_url + "/api/oauth/callback/"@ + provider
}

/// The URL of a provider's authorization page for this server.
pub open spec fn auth_url_text(
    p: Provider,
    client_id: Seq<char>,
    callback: Seq<char>,
    state: Seq<char>,
) -> Seq<char> {
    auth_head(p) + client_id + "&redirect_uri="@ + percent_encoded(encode_utf8(callback))
        + auth_middle(p) + percent_encoded(encode_utf8(state)) + auth_tail(p)
}

/// Signs users in through identity providers. The exchange with the
/// provider is the caller's; the service knows the registrations and builds
/// the addresses.
#[derive(Debug)]
pub struct OAuthService {
    pub settings: OAuthSettings,
}

impl OAuthService {
    /// A service with the given registrations.
    pub fn new(settings: OAuthSettings) -> (service: OAuthService)
        ensures
            service.settings == settings,
    {
        OAuthService { settings }
    }

    /// The client identifier and secret registered at the named provider.
    /// An unknown name and a provider without a client identifier are refused.
    pub fn provider_config(&self, provider: &str) -> (config: Result<(String, String), OAuthError>)
        ensures
            match provider_of(provider@) {
                None => config matches Err(e) && e@ == OAuthErrorView::UnknownProvider(provider@),
                Some(p) => {
                    let c = self.settings.credentials(p);
                    if c.client_id@.len() == 0 {
                        config matches Err(e) && e@ == OAuthErrorView::ProviderNotConfigured(
                            provider@,
                        )
                    } else {
                        config matches Ok(pair) && pair.0@ == c.client_id@ && pair.1@
                            == c.client_secret@
                    }
                },
            },
    {
        let p = match parse_provider(provider) {
            Some(p) => p,
            None => {
                return Err(OAuthError::UnknownProvider(provider.to_owned()));
            },
        };
        let c: &ProviderCredentials = match p {
            Provider::Google => &self.settings.google,
            Provider::Facebook => &self.settings.facebook,
            Provider::Github => &self.settings.github,
            Provider::Linkedin => &self.settings.linkedin,
            Provider::Microsoft => &self.settings.microsoft,
        };
        if c.client_id.as_str().unicode_len() == 0 {
            return Err(OAuthError::ProviderNotConfigured(provider.to_owned()));
        }
        Ok((c.client_id.clone(), c.client_secret.clone()))
    }

    /// Where the named provider sends the user back to.
    pub fn callback_url(&self, provider: &str) -> (url: String)
        ensures
            url@ == callback_url_text(self.settings.base_url@, provider@),
    {
        let mut url = self.settings.base_url.clone();
        push_text(&mut url, "/api/oauth/callback/");
        push_text(&mut url, provider);
        url
    }

    /// The URL of the named provider's authorization page, with the
    /// redirect address and the state percent-encoded.
    pub fn build_auth_url(&self, provider: &str, state: &str) -> (url: Result<String, OAuthError>)
        ensures
            match provider_of(provider@) {
                None => url matches Err(e) && e@ == OAuthErrorView::UnknownProvider(provider@),
                Some(p) => {
                    let c = self.settings.credentials(p);
                    if c.client_id@.len() == 0 {
                        url matches Err(e) && e@ == OAuthErrorView::ProviderNotConfigured(
                            provider@,
                        )
                    } else {
                        url matches Ok(text) && text@ == auth_url_text(
                            p,
                            c.client_id@,
                            callback_url_text(self.settings.base_url@, provider@),
                            state@,
                        )
                    }
                },
            },
    {
        let (client_id, _) = match self.provider_config(provider) {
            Ok(pair) => pair,
            Err(e) => {
                return Err(e);
            },
        };
        let p = match parse_provider(provider) {
            Some(p) => p,
            None => {
                return Err(OAuthError::UnknownProvider(provider.to_owned()));
            },
        };
        let callback = self.callback_url(provider);
        let mut url: String = match p {
            Provider::Google => "https://accounts.google.com/o/oauth2/v2/auth?client_id=".to_owned(),
            Provider::Facebook => "https://www.facebook.com/v18.0/dialog/oauth?client_id=".to_owned(),
            Provider::Github => "https://github.com/login/oauth/authorize?client_id=".to_owned(),
            Provider::Linkedin => "https://www.linkedin.com/oauth/v2/authorization?client_id=".to_owned(),
            Provider::Microsoft => "https://login.microsoftonline.com/common/oauth2/v2.0/authorize?client_id=".to_owned(),
        };
        push_text(&mut url, client_id.as_str());
        push_text(&mut url, "&redirect_uri=");
        let encoded_callback = percent_encode(callback.as_str());
        push_text(&mut url, encoded_callback.as_str());
        match p {
            Provider::Google => push_text(
                &mut url,
                "&response_type=code&scope=email+profile&state=",
            ),
            Provider::Facebook => push_text(&mut url, "&response_type=code&scope=email&state="),
            Provider::Github => push_text(&mut url, "&scope=user+user:email&state="),
            Provider::Linkedin => push_text(
                &mut url,
                "&response_type=code&scope=openid+profile+email&state=",
            ),
            Provider::Microsoft => push_text(
                &mut url,
                "&response_type=code&scope=openid+profile+email+User.Read&state=",
            ),
        }
        let encoded_state = percent_encode(state);
        push_text(&mut url, encoded_state.as_str());
        match p {
            Provider::Google => push_text(&mut url, "&access_type=offline"),
            _ => {
                proof {
                    assert(url@ + Seq::<char>::empty() =~= url@);
                }
            },
        }
        Ok(url)
    }
}

/// Where a provider exchanges an authorization code for an access token.
pub open spec fn token_url_text(p: Provider) -> Seq<char> {
    match p {
        Provider::Google => "https://oauth2.googleapis.com/token"@,
        Provider::Facebook => "https://graph.facebook.com/v18.0/oauth/access_token"@,
        Provider::Github => "https://github.com/login/oauth/access_token"@,
        Provider::Linkedin => "https://www.linkedin.com/oauth/v2/accessToken"@,
        Provider::Microsoft => "https://login.microsoftonline.com/common/oauth2/v2.0/token"@,
    }
}

/// Where a provider tells who the bearer of an access token is.
pub open spec fn user_info_url_text(p: Provider) -> Seq<char> {
    match p {
        Provider::Google => "https://www.googleapis.com/userinfo/v2/me"@,
        Provider::Facebook => "https://graph.facebook.com/v18.0/me?fields=email,name,picture.type(large)"@,
        Provider::Github => "https://api.github.com/user"@,
        Provider::Linkedin => "https://api.linkedin.com/v2/userinfo"@,
        Provider::Microsoft => "https://graph.microsoft.com/v1.0/me"@,
    }
}

/// How a provider takes the request for an access token.
#[derive(Clone, Copy, Debug, PartialEq, Eq, Structural)]
pub struct TokenRequest {
    /// Whether the parameters go in a form that is posted; else they go in
    /// the query of a GET request.
    pub post_form: bool,
    /// Whether the parameters name the grant type `authorization_code`.
    pub names_grant_type: bool,
    /// Whether the request asks for a JSON answer in its `Accept` header.
    pub accepts_json: bool,
    /// Whether the provider wants a `User-Agent` header on requests for the user.
    pub wants_user_agent: bool,
}

/// How `p` takes the request for an access token.
pub open spec fn token_request_of(p: Provider) -> TokenRequest {
    match p {
        Provider::Google => TokenRequest {
            post_form: true,
            names_grant_type: true,
            accepts_json: false,
            wants_user_agent: false,
        },
        Provider::Facebook => TokenRequest {
            post_form: false,
            names_grant_type: false,
            accepts_json: false,
            wants_user_agent: false,
        },
        Provider::Github => TokenRequest {
            post_form: true,
            names_grant_type: false,
            accepts_json: true,
            wants_user_agent: true,
        },
        Provider::Linkedin => TokenRequest {
            post_form: true,
            names_grant_type: true,
            accepts_json: false,
            wants_user_agent: false,
        },
        Provider::Microsoft => TokenRequest {
            post_form: true,
            names_grant_type: true,
            accepts_json: false,
            wants_user_agent: false,
        },
    }
}

/// Where and how `p` exchanges an authorization code for an access token.
pub fn token_request(p: Provider) -> (request: (&'static str, TokenRequest))
    ensures
        request.0@ == token_url_text(p),
        request.1 == token_request_of(p),
{
    match p {
        Provider::Google => (
            "https://oauth2.googleapis.com/token",
            TokenRequest {
                post_form: true,
                names_grant_type: true,
                accepts_json: false,
                wants_user_agent: false,
            },
        ),
        Provider::Facebook => (
            "https://graph.facebook.com/v18.0/oauth/access_token",
            TokenRequest {
                post_form: false,
                names_grant_type: false,
                accepts_json: false,
                wants_user_agent: false,
            },
        ),
        Provider::Github => (
            "https://github.com/login/oauth/access_token",
            TokenRequest {
                post_form: true,
                names_grant_type: false,
                accepts_json: true,
                wants_user_agent: true,
            },
        ),
        Provider::Linkedin => (
            "https://www.linkedin.com/oauth/v2/accessToken",
            TokenRequest {
                post_form: true,
                names_grant_type: true,
                accepts_json: false,
                wants_user_agent: false,
            },
        ),
        Provider::Microsoft => (
            "https://login.microsoftonline.com/common/oauth2/v2.0/token",
            TokenRequest {
                post_form: true,
                names_grant_type: true,
                accepts_json: false,
                wants_user_agent: false,
            },
        ),
    }
}

/// Where `p` tells who the bearer of an access token is.
pub fn user_info_url(p: Provider) -> (url: &'static str)
    ensures
        url@ == user_info_url_text(p),
{
    match p {
        Provider::Google => "https://www.googleapis.com/userinfo/v2/me",
        Provider::Facebook => "https://graph.facebook.com/v18.0/me?fields=email,name,picture.type(large)",
        Provider::Github => "https://api.github.com/user",
        Provider::Linkedin => "https://api.linkedin.com/v2/userinfo",
        Provider::Microsoft => "https://graph.microsoft.com/v1.0/me",
    }
}

/// The text of an optional string, empty where there is none.
pub open spec fn or_empty(s: Option<Seq<char>>) -> Seq<char> {
    match s {
        Some(t) => t,
        None => Seq::empty(),
    }
}

/// A user's full name: the name given as a whole, or the given name and
/// the family name with a space between, trimmed.
pub open spec fn full_name_text(
    name: Option<Seq<char>>,
    given: Option<Seq<char>>,
    family: Option<Seq<char>>,
) -> Seq<char> {
    match name {
        Some(n) => n,
        None => trimmed(or_empty(given) + seq![' '] + or_empty(family)),
    }
}

fn text_or_empty(s: &Option<String>) -> (text: String)
    ensures
        text@ == or_empty(opt_text(*s)),
{
    match s {
        Some(t) => t.clone(),
        None => String::new(),
    }
}

/// A user's full name from what a provider told.
pub fn full_name(name: &Option<String>, given: &Option<String>, family: &Option<String>) -> (full:
    String)
    ensures
        full@ == full_name_text(opt_text(*name), opt_text(*given), opt_text(*family)),
{
    match name {
        Some(n) => n.clone(),
        None => {
            let mut joined = text_or_empty(given);
            joined.push(' ');
            let last = text_or_empty(family);
            push_text(&mut joined, last.as_str());
            proof {
                assert(joined@ =~= or_empty(opt_text(*given)) + seq![' '] + or_empty(
                    opt_text(*family),
                ));
            }
            trim(joined.as_str())
        },
    }
}

/// What Google or LinkedIn tells of a user.
#[derive(Debug)]
pub struct ProfileClaims {
    pub id: Option<String>,
    pub email: Option<String>,
    pub name: Option<String>,
    pub given_name: Option<String>,
    pub family_name: Option<String>,
    pub picture: Option<String>,
}

/// Who a user is according to Google or LinkedIn: the identifier and the
/// e-mail address are empty where the provider told none.
pub fn profile_user_info(provider: &str, claims: ProfileClaims) -> (info: OAuthUserInfo)
    ensures
        info@ == (UserInfoView {
            provider: provider@,
            provider_id: or_empty(opt_text(claims.id)),
            email: or_empty(opt_text(claims.email)),
            name: full_name_text(
                opt_text(claims.name),
                opt_text(claims.given_name),
                opt_text(claims.family_name),
            ),
            avatar_url: opt_text(claims.picture),
        }),
{
    OAuthUserInfo {
        provider: provider.to_owned(),
        provider_id: text_or_empty(&claims.id),
        email: text_or_empty(&claims.email),
        name: full_name(&claims.name, &claims.given_name, &claims.family_name),
        avatar_url: claims.picture,
    }
}

/// Who a user is according to Facebook.
pub fn facebook_user_info(
    id: String,
    email: Option<String>,
    name: Option<String>,
    picture_url: Option<String>,
) -> (info: OAuthUserInfo)
    ensures
        info@ == (UserInfoView {
            provider: "facebook"@,
            provider_id: id@,
            email: or_empty(opt_text(email)),
            name: or_empty(opt_text(name)),
            avatar_url: opt_text(picture_url),
        }),
{
    OAuthUserInfo {
        provider: "facebook".to_owned(),
        provider_id: id,
        email: text_or_empty(&email),
        name: text_or_empty(&name),
        avatar_url: picture_url,
    }
}

/// An e-mail address of a GitHub user.
#[derive(Debug)]
pub struct GitHubEmail {
    pub email: String,
    pub primary: bool,
    pub verified: bool,
}

/// The first address that is primary and verified, or the empty text.
pub open spec fn primary_email_text(emails: Seq<GitHubEmail>) -> Seq<char>
    decreases emails.len(),
{
    if emails.len() == 0 {
        Seq::empty()
    } else if emails[0].primary && emails[0].verified {
        emails[0].email@
    } else {
        primary_email_text(emails.drop_first())
    }
}

/// The first address that is primary and verified, or the empty text.
pub fn primary_email(emails: &Vec<GitHubEmail>) -> (email: String)
    ensures
        email@ == primary_email_text(emails@),
{
    let mut i: usize = 0;
    proof {
        assert(emails@.skip(0) =~= emails@);
    }
    while i < emails.len()
        invariant
            i <= emails.len(),
            primary_email_text(emails@) == primary_email_text(emails@.skip(i as int)),
        decreases emails.len() - i,
    {
        proof {
            assert(emails@.skip(i as int)[0] == emails@[i as int]);
            assert(emails@.skip(i as int).drop_first() =~= emails@.skip(i as int + 1));
        }
        if emails[i].primary && emails[i].verified {
            return emails[i].email.clone();
        }
        i += 1;
    }
    proof {
        assert(emails@.skip(i as int) =~= Seq::<GitHubEmail>::empty());
    }
    String::new()
}

/// The decimal numeral of an integer, with a minus sign where it is negative.
pub open spec fn signed_decimal(n: int) -> Seq<char> {
    if n < 0 {
        seq!['-'] + decimal((-n) as nat)
    } else {
        decimal(n as nat)
    }
}

/// Who a user is according to GitHub: the e-mail address is the one on
/// the profile or, where the profile shows none, the first primary and
/// verified address of `emails`.
pub fn github_user_info(
    id: i64,
    login: String,
    email: Option<String>,
    avatar_url: Option<String>,
    emails: &Vec<GitHubEmail>,
) -> (info: OAuthUserInfo)
    ensures
        info@ == (UserInfoView {
            provider: "github"@,
            provider_id: signed_decimal(id as int),
            email: match email {
                Some(e) => e@,
                None => primary_email_text(emails@),
            },
            name: login@,
            avatar_url: opt_text(avatar_url),
        }),
{
    let mut provider_id = String::new();
    if id < 0 {
        provider_id.push('-');
        let magnitude: u64 = if id == i64::MIN {
            9223372036854775808u64
        } else {
            (-id) as u64
        };
        push_decimal(&mut provider_id, magnitude);
    } else {
        push_decimal(&mut provider_id, id as u64);
    }
    let email_text = match email {
        Some(e) => e,
        None => primary_email(emails),
    };
    OAuthUserInfo {
        provider: "github".to_owned(),
        provider_id,
        email: email_text,
        name: login,
        avatar_url,
    }
}

/// Who a user is according to Microsoft: the name is the display name or
/// else the given name, the address the mail address or else the principal
/// name.
pub fn microsoft_user_info(
    id: String,
    display_name: Option<String>,
    given_name: Option<String>,
    mail: Option<String>,
    user_principal_name: Option<String>,
) -> (info: OAuthUserInfo)
    ensures
        info@ == (UserInfoView {
            provider: "microsoft"@,
            provider_id: id@,
            email: match mail {
                Some(m) => m@,
                None => or_empty(opt_text(user_principal_name)),
            },
            name: match display_name {
                Some(n) => n@,
                None => or_empty(opt_text(given_name)),
            },
            avatar_url: None,
        }),
{
    let name = match display_name {
        Some(n) => n,
        None => text_or_empty(&given_name),
    };
    let email = match mail {
        Some(m) => m,
        None => text_or_empty(&user_principal_name),
    };
    OAuthUserInfo {
        provider: "microsoft".to_owned(),
        provider_id: id,
        email,
        name,
        avatar_url: None,
    }
}

/// The cookie that carries the access token after a sign-in.
pub fn session_cookie(access_token: &str, expires_in: u64) -> (cookie: String)
    ensures
        cookie@ == "access_token="@ + access_token@ + "; HttpOnly; Path=/; SameSite=Lax; Max-Age="@
            + decimal(expires_in as nat),
{
    let mut cookie = "access_token=".to_owned();
    push_text(&mut cookie, access_token);
    push_text(&mut cookie, "; HttpOnly; Path=/; SameSite=Lax; Max-Age=");
    push_decimal(&mut cookie, expires_in);
    cookie
}

/// Where the user interface is: at the API's address, on port 5000 where the API is on 5001.
pub open spec fn frontend_url_text(base_url: Seq<char>) -> Seq<char> {
    replaced_all(base_url, ":5001"@, ":5000"@)
}

/// Where a signed-in user is sent back to.
pub fn callback_redirect(base_url: &str, access_token: &str) -> (url: String)
    ensures
        url@ == frontend_url_text(base_url@) + "/oauth/callback?token="@ + access_token@,
{
    let moved = replace_all(&chars_of(base_url), &chars_of(":5001"), &chars_of(":5000"));
    let mut url = string_of(&moved);
    push_text(&mut url, "/oauth/callback?token=");
    push_text(&mut url, access_token);
    url
}

} // verus!
