//! The access and refresh tokens of the Google Tasks API, and when the
//! access token has to be refreshed.
//!
//! Time is read from a monotonic clock as nanoseconds since the manager was
//! made. Each decision that depends on the time also exists as a function of
//! an explicit reading, so that it is verified for every reading.
use crate::google::Credentials;
use crate::models::clone_opt_string;
use crate::notes::opt_view;
use std::time::Instant;
use vstd::prelude::*;

verus! {

#[verifier::external_type_specification]
#[verifier::external_body]
pub struct ExInstant(Instant);

/// A reading of a `Duration` in nanoseconds stays below this bound: a
/// `Duration` holds at most `u64::MAX` whole seconds and less than one more
/// second of nanoseconds.
pub open spec fn clock_bound() -> int {
    18446744073709551616int * 1_000_000_000int
}

/// One second in nanoseconds.
pub open spec fn second() -> int {
    1_000_000_000
}

/// The safety margin before expiry: an access token that expires within a
/// minute is treated as expired.
pub open spec fn expiry_margin() -> int {
    60 * second()
}

/// std's `Instant::now`. Nothing is claimed of the reading.
#[verifier::external_body]
fn clock_origin() -> (r: Instant) {
    Instant::now()
}

/// std's `Instant::elapsed`, read with `Duration::as_nanos`. It claims only
/// the bound every `Duration` obeys; the reading itself depends on the time.
#[verifier::external_body]
fn nanos_since(origin: &Instant) -> (r: u128)
    ensures
        r < clock_bound(),
{
    origin.elapsed().as_nanos()
}

/// The answer of Google's token endpoint.
#[derive(Debug)]
pub struct TokenResponse {
    pub access_token: String,
    pub token_type: String,
    pub expires_in: u64,
    pub refresh_token: Option<String>,
    pub scope: Option<String>,
}

/// The tokens of one signed-in user. The refresh token is persisted by the
/// caller; the access token lives only in memory.
#[derive(Debug)]
pub struct TokenManager {
    refresh_token: Option<String>,
    access_token: Option<String>,
    expires_at: Option<u128>,
    origin: Instant,
}

/// The access token `access`, expiring at `expiry`, can be used at `now`:
/// it exists and expires more than a minute after `now`.
pub open spec fn token_valid_at(access: Option<Seq<char>>, expiry: Option<int>, now: int) -> bool {
    &&& access is Some
    &&& expiry matches Some(e) && now + expiry_margin() < e
}

/// What a caller that needs an access token has to do.
#[derive(Debug)]
pub enum TokenStep {
    /// Use this access token.
    Ready(String),
    /// Ask Google for a new access token with this refresh token.
    Refresh(String),
    /// Nobody signed in: there is no refresh token.
    NeedsLogin,
}

/// The error given where no refresh token is available.
pub open spec fn needs_login_text() -> Seq<char> {
    "No refresh token available. User must log in first."@
}

impl TokenManager {
    /// The refresh token held.
    pub closed spec fn refresh_view(&self) -> Option<Seq<char>> {
        opt_view(self.refresh_token)
    }

    /// The access token held.
    pub closed spec fn access_view(&self) -> Option<Seq<char>> {
        opt_view(self.access_token)
    }

    /// When the access token expires, in nanoseconds of the manager's clock.
    pub closed spec fn expiry(&self) -> Option<int> {
        match self.expires_at {
            Some(e) => Some(e as int),
            None => None,
        }
    }

    /// The access token can be used at `now`.
    pub open spec fn valid_at(&self, now: int) -> bool {
        token_valid_at(self.access_view(), self.expiry(), now)
    }

    /// A manager holding the refresh token that was persisted, if any, and
    /// no access token.
    pub fn new(refresh_token: Option<String>) -> (r: TokenManager)
        ensures
            r.refresh_view() == opt_view(refresh_token),
            r.access_view() is None,
            r.expiry() is None,
    {
        TokenManager { refresh_token, access_token: None, expires_at: None, origin: clock_origin() }
    }

    /// The manager's clock: nanoseconds since it was made.
    pub fn now(&self) -> (r: u128)
        ensures
            r < clock_bound(),
    {
        nanos_since(&self.origin)
    }

    /// Stores a new access token that expires `expires_in` seconds after
    /// `now`, and the new refresh token where Google sent one.
    pub fn set_tokens_at(
        &mut self,
        access_token: String,
        expires_in: u64,
        refresh_token: Option<String>,
        now: u128,
    )
        requires
            now < clock_bound(),
        ensures
            final(self).access_view() == Some(access_token@),
            final(self).expiry() == Some(now + expires_in * second()),
            final(self).refresh_view() == (match refresh_token {
                Some(t) => Some(t@),
                None => old(self).refresh_view(),
            }),
    {
        let lifetime: u128 = (expires_in as u128) * 1_000_000_000;
        self.access_token = Some(access_token);
        self.expires_at = Some(now + lifetime);
        match refresh_token {
            Some(t) => {
                self.refresh_token = Some(t);
            },
            None => {},
        }
    }

    /// Stores a new access token that expires `expires_in` seconds from
    /// now, and the new refresh token where Google sent one.
    pub fn set_tokens(&mut self, access_token: String, expires_in: u64, refresh_token: Option<
        String,
    >)
        ensures
            final(self).access_view() == Some(access_token@),
            final(self).expiry() matches Some(e) && e >= expires_in * second(),
            final(self).refresh_view() == (match refresh_token {
                Some(t) => Some(t@),
                None => old(self).refresh_view(),
            }),
    {
        let now = self.now();
        self.set_tokens_at(access_token, expires_in, refresh_token, now);
    }

    /// Whether the access token can be used at `now`.
    pub fn is_access_token_valid_at(&self, now: u128) -> (r: bool)
        ensures
            r == self.valid_at(now as int),
    {
        match (&self.access_token, self.expires_at) {
            (Some(_), Some(expiry)) => now < expiry && expiry - now > 60_000_000_000,
            _ => false,
        }
    }

    /// Whether the access token can be used now: the answer for one reading
    /// of the manager's clock.
    pub fn is_access_token_valid(&self) -> (r: bool)
        ensures
            exists|now: int|
                #![trigger self.valid_at(now)]
                0 <= now < clock_bound() && r == self.valid_at(now),
            r ==> self.access_view() is Some,
            r ==> (self.expiry() matches Some(e) && e > expiry_margin()),
    {
        let now = self.now();
        let r = self.is_access_token_valid_at(now);
        proof {
            assert(0 <= now < clock_bound() && r == self.valid_at(now as int));
        }
        r
    }

    /// The access token, where it can be used at `now`.
    pub fn get_access_token_at(&self, now: u128) -> (r: Option<String>)
        ensures
            opt_view(r) == (if self.valid_at(now as int) {
                self.access_view()
            } else {
                None
            }),
    {
        if self.is_access_token_valid_at(now) {
            clone_opt_string(&self.access_token)
        } else {
            None
        }
    }

    /// The access token, where it can be used now: the answer for one
    /// reading of the manager's clock.
    pub fn get_access_token(&self) -> (r: Option<String>)
        ensures
            exists|now: int|
                #![trigger self.valid_at(now)]
                0 <= now < clock_bound() && opt_view(r) == (if self.valid_at(now) {
                    self.access_view()
                } else {
                    None
                }),
            r is Some ==> opt_view(r) == self.access_view(),
            self.access_view() is None ==> r is None,
    {
        let now = self.now();
        let r = self.get_access_token_at(now);
        proof {
            assert(0 <= now < clock_bound() && opt_view(r) == (if self.valid_at(now as int) {
                self.access_view()
            } else {
                None
            }));
        }
        r
    }

    /// A refresh token is held.
    pub fn has_refresh_token(&self) -> (r: bool)
        ensures
            r == self.refresh_view() is Some,
    {
        self.refresh_token.is_some()
    }

    /// The refresh token held.
    pub fn refresh_token(&self) -> (r: Option<String>)
        ensures
            opt_view(r) == self.refresh_view(),
    {
        clone_opt_string(&self.refresh_token)
    }

    /// Forgets every token (signing out). The caller deletes the persisted
    /// refresh token.
    pub fn clear(&mut self)
        ensures
            final(self).refresh_view() is None,
            final(self).access_view() is None,
            final(self).expiry() is None,
    {
        self.refresh_token = None;
        self.access_token = None;
        self.expires_at = None;
    }

    /// What to do to obtain an access token at `now`: use the current one,
    /// refresh with the refresh token, or ask the user to sign in.
    pub fn access_step_at(&self, now: u128) -> (r: TokenStep)
        ensures
            self.valid_at(now as int) ==> (r matches TokenStep::Ready(t) && Some(t@)
                == self.access_view()),
            !self.valid_at(now as int) ==> match self.refresh_view() {
                Some(rt) => r matches TokenStep::Refresh(t) && t@ == rt,
                None => r is NeedsLogin,
            },
    {
        match self.get_access_token_at(now) {
            Some(t) => TokenStep::Ready(t),
            None => match &self.refresh_token {
                Some(rt) => TokenStep::Refresh(rt.clone()),
                None => TokenStep::NeedsLogin,
            },
        }
    }

    /// What to do now to obtain an access token.
    pub fn access_step(&self) -> (r: TokenStep)
        ensures
            r matches TokenStep::Ready(t) ==> Some(t@) == self.access_view(),
            r matches TokenStep::Refresh(t) ==> Some(t@) == self.refresh_view(),
            r is NeedsLogin ==> self.refresh_view() is None,
            self.refresh_view() is None && self.access_view() is None ==> r is NeedsLogin,
    {
        let now = self.now();
        self.access_step_at(now)
    }

    /// Takes in the token endpoint's answer to a refresh and gives the new
    /// access token.
    pub fn accept_response(&mut self, response: TokenResponse) -> (r: String)
        ensures
            r@ == response.access_token@,
            final(self).access_view() == Some(response.access_token@),
            final(self).expiry() matches Some(e) && e >= response.expires_in * second(),
            final(self).refresh_view() == (match response.refresh_token {
                Some(t) => Some(t@),
                None => old(self).refresh_view(),
            }),
    {
        let access = response.access_token.clone();
        self.set_tokens(response.access_token, response.expires_in, response.refresh_token);
        access
    }
}

/// The error given where no refresh token is available.
pub fn needs_login_message() -> (r: String)
    ensures
        r@ == needs_login_text(),
{
    String::from_str("No refresh token available. User must log in first.")
}

/// A form field: its name and value.
pub open spec fn field(name: Seq<char>, value: Seq<char>) -> (Seq<char>, Seq<char>) {
    (name, value)
}

/// The texts of a form.
pub open spec fn form_view(form: Seq<(String, String)>) -> Seq<(Seq<char>, Seq<char>)> {
    form.map_values(|p: (String, String)| (p.0@, p.1@))
}

fn pair(name: &str, value: &String) -> (r: (String, String))
    ensures
        r.0@ == name@,
        r.1@ == value@,
{
    (String::from_str(name), value.clone())
}

/// The form that asks Google's token endpoint for a new access token.
pub fn refresh_form(creds: &Credentials, refresh_token: &String) -> (r: Vec<(String, String)>)
    ensures
        form_view(r@) == seq![
            field("client_id"@, creds.installed.client_id@),
            field("client_secret"@, creds.installed.client_secret@),
            field("refresh_token"@, refresh_token@),
            field("grant_type"@, "refresh_token"@),
        ],
{
    let grant = String::from_str("refresh_token");
    let mut v: Vec<(String, String)> = Vec::new();
    v.push(pair("client_id", &creds.installed.client_id));
    v.push(pair("client_secret", &creds.installed.client_secret));
    v.push(pair("refresh_token", refresh_token));
    v.push(pair("grant_type", &grant));
    assert(form_view(v@) =~= seq![
        field("client_id"@, creds.installed.client_id@),
        field("client_secret"@, creds.installed.client_secret@),
        field("refresh_token"@, refresh_token@),
        field("grant_type"@, "refresh_token"@),
    ]);
    v
}

/// The form that trades an authorization code for tokens.
pub fn code_exchange_form(
    creds: &Credentials,
    code: &String,
    code_verifier: &String,
    redirect_url: &String,
) -> (r: Vec<(String, String)>)
    ensures
        form_view(r@) == seq![
            field("client_id"@, creds.installed.client_id@),
            field("client_secret"@, creds.installed.client_secret@),
            field("code"@, code@),
            field("code_verifier"@, code_verifier@),
            field("grant_type"@, "authorization_code"@),
            field("redirect_uri"@, redirect_url@),
        ],
{
    let grant = String::from_str("authorization_code");
    let mut v: Vec<(String, String)> = Vec::new();
    v.push(pair("client_id", &creds.installed.client_id));
    v.push(pair("client_secret", &creds.installed.client_secret));
    v.push(pair("code", code));
    v.push(pair("code_verifier", code_verifier));
    v.push(pair("grant_type", &grant));
    v.push(pair("redirect_uri", redirect_url));
    assert(form_view(v@) =~= seq![
        field("client_id"@, creds.installed.client_id@),
        field("client_secret"@, creds.installed.client_secret@),
        field("code"@, code@),
        field("code_verifier"@, code_verifier@),
        field("grant_type"@, "authorization_code"@),
        field("redirect_uri"@, redirect_url@),
    ]);
    v
}

/// A token stored for `expires_in` seconds at `now` can be used at exactly
/// the instants more than a minute before it expires: at every `t` with
/// `t + 60 s < now + expires_in s`, and at no other.
pub proof fn lemma_token_lifetime(access: Seq<char>, now: int, expires_in: int, t: int)
    ensures
        token_valid_at(Some(access), Some(now + expires_in * second()), t) <==> t + expiry_margin()
            < now + expires_in * second(),
{
}

/// Validity only ends: a token that can be used at `t2` can be used at
/// every earlier `t1`.
pub proof fn lemma_validity_ends_once(access: Option<Seq<char>>, expiry: Option<int>, t1: int, t2: int)
    requires
        t1 <= t2,
        token_valid_at(access, expiry, t2),
    ensures
        token_valid_at(access, expiry, t1),
{
}

/// After sign-out no access token can be used, at any time.
pub proof fn lemma_cleared_never_valid(expiry: Option<int>, t: int)
    ensures
        !token_valid_at(None, expiry, t),
{
}

} // verus!
