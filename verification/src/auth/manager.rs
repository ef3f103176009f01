//! Session bookkeeping: which saved session or credentials to use, what a
//! successful sign-in stores, and what the sign-in response carries (the
//! `authToken` cookie and the token's expiry).

use vstd::prelude::*;
use vstd::utf8::{decode_utf8, encode_utf8, valid_utf8};
use base64::Engine;
use crate::json::{Json, JsonNumber, JVal, jget, ji64};
use crate::text::{
    trim, trimmed, is_blank, owned, cat, cat3, is_ws, find_char, has_prefix, starts_with,
    chars_of, push_range, find_in, lemma_find_char_bounds,
};
use crate::types::{
    AuthenticatedSession, LoginInput, StoredConfig, StoredCredentials, StoredSession,
};
use crate::auth::local_server::LocalAuthDefaults;
use crate::startup_config::{normalized, normalize_base_url};

verus! {

pub open spec fn opt_str(v: Option<&str>) -> Option<Seq<char>> {
    match v {
        Some(s) => Some(s@),
        None => None,
    }
}

pub open spec fn opt_string(v: Option<String>) -> Option<Seq<char>> {
    match v {
        Some(s) => Some(s@),
        None => None,
    }
}

/// The base URL to sign in to: the configured one, else the saved one.
pub open spec fn preferred(configured: Option<Seq<char>>, config: Option<StoredConfig>) -> Option<Seq<char>> {
    match configured {
        Some(c) => Some(c),
        None => match config {
            Some(c) => Some(c.base_url@),
            None => None,
        },
    }
}

/// The base URL to sign in to.
pub fn get_preferred_base_url(configured: Option<&str>, config: Option<&StoredConfig>) -> (r: Option<String>)
    ensures
        opt_string(r) == preferred(
            opt_str(configured),
            match config {
                Some(c) => Some(*c),
                None => None,
            },
        ),
{
    match configured {
        Some(c) => Some(owned(c)),
        None => match config {
            Some(c) => Some(c.base_url.clone()),
            None => None,
        },
    }
}

/// A session for API calls from the saved configuration and session.
pub fn to_authenticated_session(config: StoredConfig, session: StoredSession) -> (r: AuthenticatedSession)
    ensures
        r.base_url == config.base_url,
        r.email == config.email,
        r.token == session.token,
        r.expires_at == session.expires_at,
{
    AuthenticatedSession {
        base_url: config.base_url,
        email: config.email,
        token: session.token,
        expires_at: session.expires_at,
    }
}

/// What to do for an API call: use the saved session, or sign in again.
pub enum SessionChoice {
    UseSaved(AuthenticatedSession),
    Reauthenticate,
}

/// The saved session is used when both configuration and session are
/// saved, the configuration is for the preferred base URL, and the session
/// is not about to expire.
pub fn choose_session(
    configured: Option<&str>,
    config: Option<StoredConfig>,
    session: Option<StoredSession>,
    expiring: bool,
) -> (r: SessionChoice)
    ensures
        match (config, session) {
            (Some(c), Some(s)) => if preferred(opt_str(configured), Some(c)) == Some(c.base_url@)
                && !expiring {
                r matches SessionChoice::UseSaved(a) && a.base_url == c.base_url && a.email
                    == c.email && a.token == s.token && a.expires_at == s.expires_at
            } else {
                r is Reauthenticate
            },
            _ => r is Reauthenticate,
        },
{
    match (config, session) {
        (Some(c), Some(s)) => {
            let pref = get_preferred_base_url(configured, Some(&c));
            let same = match &pref {
                Some(p) => *p == c.base_url,
                None => false,
            };
            if same && !expiring {
                SessionChoice::UseSaved(to_authenticated_session(c, s))
            } else {
                SessionChoice::Reauthenticate
            }
        },
        _ => SessionChoice::Reauthenticate,
    }
}

/// How to sign in again: with the saved credentials against the preferred
/// base URL, or interactively.
pub enum ReauthPlan {
    Login(LoginInput),
    Prompt,
}

/// Saved credentials and a base URL to use them with give a sign-in;
/// otherwise the user is asked.
pub fn reauth_plan(
    configured: Option<&str>,
    config: Option<&StoredConfig>,
    credentials: Option<StoredCredentials>,
) -> (r: ReauthPlan)
    ensures
        match (
            preferred(
                opt_str(configured),
                match config {
                    Some(c) => Some(*c),
                    None => None,
                },
            ),
            credentials,
        ) {
            (Some(b), Some(c)) => r matches ReauthPlan::Login(l) && l.base_url@ == b && l.email
                == c.email && l.password == c.password,
            _ => r is Prompt,
        },
{
    match (get_preferred_base_url(configured, config), credentials) {
        (Some(b), Some(c)) => ReauthPlan::Login(LoginInput { base_url: b, email: c.email, password: c.password }),
        _ => ReauthPlan::Prompt,
    }
}

/// What the sign-in form is filled in with: the preferred base URL (read
/// only when configured at startup) and the saved email.
pub fn login_defaults(configured: Option<&str>, config: Option<&StoredConfig>) -> (d: LocalAuthDefaults)
    ensures
        opt_string(d.base_url) == preferred(
            opt_str(configured),
            match config {
                Some(c) => Some(*c),
                None => None,
            },
        ),
        opt_string(d.email) == match config {
            Some(c) => Some(c.email@),
            None => None,
        },
        d.base_url_readonly == configured is Some,
{
    LocalAuthDefaults {
        base_url: get_preferred_base_url(configured, config),
        email: match config {
            Some(c) => Some(c.email.clone()),
            None => None,
        },
        base_url_readonly: configured.is_some(),
    }
}

/// The error for a rejected sign-in: `Docmost login failed ({status}).
/// {details}`, trimmed.
pub fn login_failed_message(status: &str, details: &str) -> (r: String)
    ensures
        r@ == trim("Docmost login failed ("@ + status@ + "). "@ + details@),
{
    let mut m = cat3("Docmost login failed (", status, "). ");
    m.append(details);
    trimmed(m.as_str())
}

/// The details of a failed response: `Response: ` and the trimmed body,
/// or nothing for an empty or unreadable body.
pub open spec fn details_text(body: Option<Seq<char>>) -> Seq<char> {
    match body {
        Some(b) => if trim(b).len() == 0 {
            Seq::empty()
        } else {
            "Response: "@ + trim(b)
        },
        None => Seq::empty(),
    }
}

/// The details of a failed response: `Response: ` and the trimmed body,
/// or nothing for an empty or unreadable body.
pub fn response_details(body: Option<&str>) -> (r: String)
    ensures
        r@ == details_text(opt_str(body)),
{
    match body {
        Some(b) => {
            if is_blank(b) {
                String::new()
            } else {
                let t = trimmed(b);
                cat("Response: ", t.as_str())
            }
        },
        None => String::new(),
    }
}

/// What a successful sign-in saves and returns.
pub struct LoginRecords {
    pub config: StoredConfig,
    pub session: StoredSession,
    pub credentials: StoredCredentials,
    pub authenticated: AuthenticatedSession,
}

/// The records of a successful sign-in with `input`, the `token` it
/// returned (expiring at `expires_at`), at time `now`: all under the
/// normalized base URL.
pub fn login_records(input: LoginInput, token: String, expires_at: Option<String>, now: String) -> (r: LoginRecords)
    ensures
        r.config.base_url@ == normalized(input.base_url@),
        r.config.email == input.email,
        r.config.last_authenticated_at == now,
        r.session.token == token,
        r.session.expires_at == expires_at,
        r.session.saved_at == now,
        r.credentials.email == input.email,
        r.credentials.password == input.password,
        r.authenticated.base_url@ == normalized(input.base_url@),
        r.authenticated.email == input.email,
        r.authenticated.token == token,
        r.authenticated.expires_at == expires_at,
{
    let base_url = normalize_base_url(input.base_url.as_str());
    LoginRecords {
        config: StoredConfig {
            base_url: base_url.clone(),
            email: input.email.clone(),
            last_authenticated_at: now.clone(),
        },
        session: StoredSession { token: token.clone(), expires_at: expires_at.clone(), saved_at: now },
        credentials: StoredCredentials { email: input.email.clone(), password: input.password },
        authenticated: AuthenticatedSession { base_url, email: input.email, token, expires_at },
    }
}

/// The instant an RFC 3339 timestamp denotes, in milliseconds since the
/// Unix epoch, as chrono parses it.
pub uninterp spec fn rfc3339_millis_of(s: Seq<char>) -> Option<i64>;

/// Parses with `chrono::DateTime::parse_from_rfc3339` and takes
/// `timestamp_millis`. The result is named, not stated.
#[verifier::external_body]
fn rfc3339_millis(s: &str) -> (r: Option<i64>)
    ensures
        r == rfc3339_millis_of(s@),
{
    chrono::DateTime::parse_from_rfc3339(s).ok().map(|d| d.timestamp_millis())
}

/// The current time in milliseconds since the Unix epoch
/// (`chrono::Utc::now().timestamp_millis()`). Nothing is claimed of it.
#[verifier::external_body]
fn now_millis() -> i64 {
    chrono::Utc::now().timestamp_millis()
}

/// A session is about to expire when its expiry parses and is at most two
/// minutes after `now_ms`.
pub open spec fn expiring_at(expires_at: Option<Seq<char>>, now_ms: int) -> bool {
    match expires_at {
        Some(e) => match rfc3339_millis_of(e) {
            Some(ms) => ms - now_ms <= 120000,
            None => false,
        },
        None => false,
    }
}

/// Expiry is monotone in time: a session expiring at `now_ms` is expiring
/// at every later time; a session whose expiry is at or before `now_ms`
/// (already expired) is expiring, and one whose expiry is more than two
/// minutes ahead is not.
pub proof fn law_expiry_monotone(expires_at: Option<Seq<char>>, now_ms: int, later_ms: int)
    ensures
        expiring_at(expires_at, now_ms) && now_ms <= later_ms ==> expiring_at(expires_at, later_ms),
        expires_at matches Some(e) && rfc3339_millis_of(e) matches Some(ms) && ms <= now_ms
            ==> expiring_at(expires_at, now_ms),
        expires_at matches Some(e) && rfc3339_millis_of(e) matches Some(ms) && ms > now_ms + 120000
            ==> !expiring_at(expires_at, now_ms),
{
}

/// Whether `session` expires within two minutes of `now_ms`.
pub fn session_expiring_at(session: &StoredSession, now_ms: i64) -> (r: bool)
    ensures
        r == expiring_at(opt_string(session.expires_at), now_ms as int),
{
    match &session.expires_at {
        Some(e) => match rfc3339_millis(e.as_str()) {
            Some(ms) => (ms as i128) - (now_ms as i128) <= 120000,
            None => false,
        },
        None => false,
    }
}

/// Whether `session` expires within two minutes of now.
pub fn is_session_expiring(session: &StoredSession) -> (r: bool)
    ensures
        exists|now_ms: int| r == expiring_at(opt_string(session.expires_at), now_ms),
{
    let now = now_millis();
    session_expiring_at(session, now)
}

/// The length of the whitespace run that starts `s`.
pub open spec fn ws_run(s: Seq<char>) -> nat
    decreases s.len(),
{
    if s.len() > 0 && is_ws(s[0]) {
        1 + ws_run(s.drop_first())
    } else {
        0
    }
}

/// The token of an `authToken=` that starts at `p`: what follows up to the
/// next `;`, when that is not empty.
pub open spec fn token_at(s: Seq<char>, p: int) -> Option<Seq<char>> {
    if 0 <= p <= s.len() && has_prefix(s.skip(p), "authToken="@) {
        let rest = s.skip(p + 10);
        let k = find_char(rest, ';');
        if k > 0 {
            Some(rest.take(k))
        } else {
            None
        }
    } else {
        None
    }
}

/// The first token after a comma at or after `c` (and optional
/// whitespace).
pub open spec fn token_after_comma(s: Seq<char>, c: nat) -> Option<Seq<char>>
    decreases s.len() - c,
{
    if c >= s.len() {
        None
    } else if s[c as int] == ',' && token_at(s, (c + 1 + ws_run(s.skip((c + 1) as int))) as int) is Some {
        token_at(s, (c + 1 + ws_run(s.skip((c + 1) as int))) as int)
    } else {
        token_after_comma(s, c + 1)
    }
}

/// The capture of `(?:^|,\s*)authToken=([^;]+)` in a cookie header: the
/// leftmost `authToken=` at the start or after a comma and whitespace, up
/// to the next `;`.
pub open spec fn auth_token_match(cookie: Seq<char>) -> Option<Seq<char>> {
    match token_at(cookie, 0) {
        Some(t) => Some(t),
        None => token_after_comma(cookie, 0),
    }
}

/// Runs `regex::Regex::new(pattern)` and `captures` on a cookie header,
/// taking group 1. Only the cookie pattern `(?:^|,\s*)authToken=([^;]+)` is
/// admitted (it compiles); for it the contract states the pattern's
/// meaning: the leftmost match, its value up to the next `;`.
#[verifier::external_body]
fn auth_token_capture(pattern: &str, cookie: &str) -> (r: Option<String>)
    requires
        pattern@ == "(?:^|,\\s*)authToken=([^;]+)"@,
    ensures
        match r {
            Some(t) => auth_token_match(cookie@) == Some(t@),
            None => auth_token_match(cookie@) is None,
        },
{
    let re = regex::Regex::new(pattern).expect("valid pattern");
    re.captures(cookie).and_then(|c| c.get(1)).map(|m| m.as_str().to_string())
}

/// An ASCII hexadecimal digit (`0-9`, `A-F`, `a-f`).
pub open spec fn is_hex_byte(b: u8) -> bool {
    (48 <= b <= 57) || (65 <= b <= 70) || (97 <= b <= 102)
}

/// The value of a hexadecimal digit.
pub open spec fn hex_val(b: u8) -> int {
    if b <= 57 {
        b - 48
    } else if b <= 70 {
        b - 55
    } else {
        b - 87
    }
}

/// `b` with every `%` followed by two hexadecimal digits replaced by the
/// byte they spell; every other byte (a `+` too) kept as it is.
pub open spec fn percent_decoded(b: Seq<u8>) -> Seq<u8>
    decreases b.len(),
{
    if b.len() == 0 {
        Seq::empty()
    } else if b.len() >= 3 && b[0] == 37 && is_hex_byte(b[1]) && is_hex_byte(b[2]) {
        seq![(hex_val(b[1]) * 16 + hex_val(b[2])) as u8] + percent_decoded(b.skip(3))
    } else {
        seq![b[0]] + percent_decoded(b.skip(1))
    }
}

/// The text `s` percent-decodes to, read as UTF-8; nothing when the decoded
/// bytes are not UTF-8.
pub open spec fn url_decoded(s: Seq<char>) -> Option<Seq<char>> {
    let d = percent_decoded(encode_utf8(s));
    if valid_utf8(d) {
        Some(decode_utf8(d))
    } else {
        None
    }
}

/// Runs `urlencoding::decode`. As the crate's source shows, it decodes each
/// `%` with two hexadecimal digits after it into the byte they spell, keeps
/// every other byte, and fails when the result is not UTF-8.
#[verifier::external_body]
fn url_decode(s: &str) -> (r: Option<String>)
    ensures
        match r {
            Some(t) => url_decoded(s@) == Some(t@),
            None => url_decoded(s@) is None,
        },
{
    urlencoding::decode(s).ok().map(|c| c.into_owned())
}

/// The session token among `Set-Cookie` header values: the first header
/// holding an `authToken`, percent-decoded (none when that fails).
pub open spec fn token_from_cookies(cookies: Seq<Seq<char>>) -> Option<Seq<char>>
    decreases cookies.len(),
{
    if cookies.len() == 0 {
        None
    } else {
        match auth_token_match(cookies[0]) {
            Some(t) => url_decoded(t),
            None => token_from_cookies(cookies.drop_first()),
        }
    }
}

/// Reads the session token from the `Set-Cookie` header values.
pub fn read_auth_token_from_cookies(cookies: &Vec<String>) -> (r: Option<String>)
    ensures
        opt_string(r) == token_from_cookies(cookies@.map_values(|c: String| c@)),
{
    let ghost cs = cookies@.map_values(|c: String| c@);
    let mut i: usize = 0;
    assert(cs.skip(0) =~= cs);
    while i < cookies.len()
        invariant
            i <= cookies@.len(),
            cs == cookies@.map_values(|c: String| c@),
            token_from_cookies(cs) == token_from_cookies(cs.skip(i as int)),
        decreases cookies@.len() - i,
    {
        assert(cs.skip(i as int).drop_first() =~= cs.skip(i + 1));
        assert(cs.skip(i as int)[0] == cookies@[i as int]@);
        match auth_token_capture("(?:^|,\\s*)authToken=([^;]+)", cookies[i].as_str()) {
            Some(t) => {
                return url_decode(t.as_str());
            },
            None => {},
        }
        i += 1;
    }
    assert(cs.skip(i as int) =~= Seq::<Seq<char>>::empty());
    None
}

/// The second `.`-separated part of `s` (`s.split('.').nth(1)`).
pub open spec fn second_segment(s: Seq<char>) -> Option<Seq<char>> {
    let k = find_char(s, '.');
    if k < s.len() {
        let rest = s.skip(k + 1);
        Some(rest.take(find_char(rest, '.')))
    } else {
        None
    }
}

/// What base64 URL-safe decoding without padding gives.
pub uninterp spec fn base64_url_nopad_of(s: Seq<char>) -> Option<Seq<u8>>;

/// What base64 URL-safe decoding with padding gives.
pub uninterp spec fn base64_url_of(s: Seq<char>) -> Option<Seq<u8>>;

/// The JSON value a byte string holds, as `serde_json::from_slice` reads
/// it.
pub uninterp spec fn json_of_bytes(b: Seq<u8>) -> Option<JVal>;

/// An RFC 3339 text (milliseconds, `Z`) for Unix time `secs`, as chrono
/// writes it; nothing outside chrono's range.
pub uninterp spec fn rfc3339_of_secs(secs: i64) -> Option<Seq<char>>;

/// Runs `URL_SAFE_NO_PAD.decode` from base64. The result is named.
#[verifier::external_body]
fn decode_base64_url_nopad(s: &str) -> (r: Option<Vec<u8>>)
    ensures
        match r {
            Some(b) => base64_url_nopad_of(s@) == Some(b@),
            None => base64_url_nopad_of(s@) is None,
        },
{
    base64::engine::general_purpose::URL_SAFE_NO_PAD.decode(s).ok()
}

/// Runs `URL_SAFE.decode` from base64. The result is named.
#[verifier::external_body]
fn decode_base64_url(s: &str) -> (r: Option<Vec<u8>>)
    ensures
        match r {
            Some(b) => base64_url_of(s@) == Some(b@),
            None => base64_url_of(s@) is None,
        },
{
    base64::engine::general_purpose::URL_SAFE.decode(s).ok()
}

/// Runs `serde_json::from_slice::<Value>` and hands the value over as a
/// `Json`. The result is named.
#[verifier::external_body]
fn parse_json_bytes(b: &[u8]) -> (r: Option<Json>)
    ensures
        match r {
            Some(j) => json_of_bytes(b@) == Some(j@),
            None => json_of_bytes(b@) is None,
        },
{
    serde_json::from_slice::<serde_json::Value>(b).ok().map(crate::json::json_of_value)
}

/// Runs `chrono::DateTime::<Utc>::from_timestamp(secs, 0)` and
/// `to_rfc3339_opts(SecondsFormat::Millis, true)`. The result is named.
#[verifier::external_body]
fn rfc3339_from_secs(secs: i64) -> (r: Option<String>)
    ensures
        match r {
            Some(t) => rfc3339_of_secs(secs) == Some(t@),
            None => rfc3339_of_secs(secs) is None,
        },
{
    chrono::DateTime::<chrono::Utc>::from_timestamp(secs, 0)
        .map(|d| d.to_rfc3339_opts(chrono::SecondsFormat::Millis, true))
}

/// The expiry of a JWT: its payload (second part) decoded from base64
/// (unpadded, else padded), read as JSON, its `exp` seconds as RFC 3339.
pub open spec fn jwt_expiry(token: Seq<char>) -> Option<Seq<char>> {
    match second_segment(token) {
        None => None,
        Some(part) => {
            let decoded = match base64_url_nopad_of(part) {
                Some(b) => Some(b),
                None => base64_url_of(part),
            };
            match decoded {
                None => None,
                Some(b) => match json_of_bytes(b) {
                    None => None,
                    Some(payload) => match ji64(jget(payload, "exp"@)) {
                        None => None,
                        Some(exp) => rfc3339_of_secs(exp),
                    },
                },
            }
        },
    }
}

/// The expiry time of a session token.
pub fn get_jwt_expiry_iso(token: &str) -> (r: Option<String>)
    ensures
        opt_string(r) == jwt_expiry(token@),
{
    let v = chars_of(token);
    let k = find_in(&v, 0, v.len(), '.');
    assert(v@.subrange(0, v@.len() as int) =~= token@);
    if k >= v.len() {
        return None;
    }
    let e = find_in(&v, k + 1, v.len(), '.');
    let mut part = String::new();
    push_range(&mut part, &v, k + 1, e);
    proof {
        let rest = token@.skip(k + 1);
        assert(v@.subrange(k + 1, v@.len() as int) =~= rest);
        lemma_find_char_bounds(rest, '.');
        assert(v@.subrange(k + 1, e as int) =~= rest.take(find_char(rest, '.')));
    }
    let decoded = match decode_base64_url_nopad(part.as_str()) {
        Some(b) => b,
        None => match decode_base64_url(part.as_str()) {
            Some(b) => b,
            None => {
                return None;
            },
        },
    };
    let payload = match parse_json_bytes(decoded.as_slice()) {
        Some(j) => j,
        None => {
            return None;
        },
    };
    let exp = match payload.get("exp") {
        Some(x) => match x.as_i64() {
            Some(n) => n,
            None => {
                return None;
            },
        },
        None => {
            return None;
        },
    };
    rfc3339_from_secs(exp)
}

/// The current time as RFC 3339 with milliseconds and `Z`
/// (`chrono::Utc::now().to_rfc3339_opts(SecondsFormat::Millis, true)`).
/// Nothing is claimed of the text: it depends on the clock.
#[verifier::external_body]
fn now_rfc3339() -> String {
    chrono::Utc::now().to_rfc3339_opts(chrono::SecondsFormat::Millis, true)
}

/// The message when a sign-in succeeds without a session cookie.
pub open spec fn missing_cookie_message() -> Seq<char> {
    "Docmost login succeeded but no authToken cookie was returned."@
}

/// Decides a sign-in from the login response: `success` (a 2xx status),
/// the status line, the body (read only for a failure) and the
/// `Set-Cookie` values. A failure gives its message; a success without an
/// `authToken` cookie gives the missing-cookie message; otherwise the
/// records to save, stamped with the current time (the same instant for
/// the config and the session), the token's JWT expiry, and the input under
/// the normalized base URL.
pub fn login_outcome(
    input: LoginInput,
    success: bool,
    status: &str,
    body: Option<&str>,
    cookies: &Vec<String>,
) -> (r: Result<LoginRecords, String>)
    ensures
        !success ==> (r matches Err(m) && m@ == trim(
            "Docmost login failed ("@ + status@ + "). "@ + details_text(opt_str(body)),
        )),
        success && token_from_cookies(cookies@.map_values(|c: String| c@)) is None ==> (r matches Err(m)
            && m@ == missing_cookie_message()),
        success ==> (token_from_cookies(cookies@.map_values(|c: String| c@)) matches Some(t) ==> (r matches Ok(
            rec,
        ) && {
            &&& rec.session.token@ == t
            &&& rec.authenticated.token@ == t
            &&& opt_string(rec.session.expires_at) == jwt_expiry(t)
            &&& rec.authenticated.expires_at == rec.session.expires_at
            &&& rec.session.saved_at == rec.config.last_authenticated_at
            &&& rec.config.base_url@ == normalized(input.base_url@)
            &&& rec.authenticated.base_url@ == normalized(input.base_url@)
            &&& rec.config.email == input.email
            &&& rec.authenticated.email == input.email
            &&& rec.credentials.email == input.email
            &&& rec.credentials.password == input.password
        })),
{
    if !success {
        let details = response_details(body);
        return Err(login_failed_message(status, details.as_str()));
    }
    match read_auth_token_from_cookies(cookies) {
        None => Err(owned("Docmost login succeeded but no authToken cookie was returned.")),
        Some(token) => {
            let expires_at = get_jwt_expiry_iso(token.as_str());
            Ok(login_records(input, token, expires_at, now_rfc3339()))
        },
    }
}

} // verus!
