//! The local sign-in page: the form's defaults, what a submission must
//! hold, the pages it serves and the replies it sends.

use vstd::prelude::*;
use crate::text::{trim, trimmed, is_blank, owned, cat, cat3, decimal, decimal_string, push_char};
use crate::types::{LoginInput, AuthWindowSession};

verus! {

/// What the sign-in form is filled in with.
#[derive(Debug, Clone, PartialEq, Eq)]
pub struct LocalAuthDefaults {
    pub base_url: Option<String>,
    pub email: Option<String>,
    /// The base URL came from the startup options and cannot be edited.
    pub base_url_readonly: bool,
}

impl Default for LocalAuthDefaults {
    fn default() -> (d: LocalAuthDefaults)
        ensures
            d.base_url is None,
            d.email is None,
            !d.base_url_readonly,
    {
        LocalAuthDefaults { base_url: None, email: None, base_url_readonly: false }
    }
}

/// A form submission, each field possibly missing.
#[derive(Debug, Clone, PartialEq, Eq)]
pub struct PartialLoginInput {
    pub base_url: Option<String>,
    pub email: Option<String>,
    pub password: Option<String>,
}

/// The reply to a form submission.
#[derive(Debug, Clone, PartialEq, Eq)]
pub struct AuthResponse {
    pub ok: bool,
    pub redirect_url: Option<String>,
    pub error: Option<String>,
}

impl AuthResponse {
    /// Success, with where the page goes next.
    pub fn success(redirect_url: String) -> (r: AuthResponse)
        ensures
            r.ok,
            r.redirect_url == Some(redirect_url),
            r.error is None,
    {
        AuthResponse { ok: true, redirect_url: Some(redirect_url), error: None }
    }

    /// Failure, with its message.
    pub fn error(error: String) -> (r: AuthResponse)
        ensures
            !r.ok,
            r.redirect_url is None,
            r.error == Some(error),
    {
        AuthResponse { ok: false, redirect_url: None, error: Some(error) }
    }
}

/// The message for an incomplete submission.
pub open spec fn missing_fields_message() -> Seq<char> {
    "Base URL, email, and password are required."@
}

/// A value trimmed, when that leaves something.
pub open spec fn nonblank(v: Option<Seq<char>>) -> Option<Seq<char>> {
    match v {
        Some(s) => if trim(s).len() > 0 {
            Some(trim(s))
        } else {
            None
        },
        None => None,
    }
}

pub open spec fn opt_str(v: Option<String>) -> Option<Seq<char>> {
    match v {
        Some(s) => Some(s@),
        None => None,
    }
}

/// The sign-in a submission asks for: the base URL (trimmed, else the
/// default), the trimmed email and the password (as typed), all non-empty.
pub open spec fn login_of(raw: PartialLoginInput, defaults: LocalAuthDefaults) -> Option<(Seq<char>, Seq<char>, Seq<char>)> {
    let base = match nonblank(opt_str(raw.base_url)) {
        Some(b) => Some(b),
        None => opt_str(defaults.base_url),
    };
    let email = nonblank(opt_str(raw.email));
    let password = match opt_str(raw.password) {
        Some(p) => if p.len() > 0 {
            Some(p)
        } else {
            None
        },
        None => None,
    };
    match (base, email, password) {
        (Some(b), Some(e), Some(p)) => Some((b, e, p)),
        _ => None,
    }
}

/// The base URL typed into the form wins over the default: when it is
/// non-blank, a login made from the submission has that URL trimmed,
/// whatever the default; the default is used only when the submitted URL is
/// absent or blank. The email is the trimmed submission and the password is
/// kept exactly as typed.
pub proof fn law_submitted_base_url_wins(raw: PartialLoginInput, defaults: LocalAuthDefaults)
    ensures
        raw.base_url is Some && trim(raw.base_url->0@).len() > 0 && login_of(raw, defaults) is Some
            ==> login_of(raw, defaults).unwrap().0 == trim(raw.base_url->0@),
        (raw.base_url is None || trim(raw.base_url->0@).len() == 0) && login_of(raw, defaults) is Some
            ==> defaults.base_url is Some && login_of(raw, defaults).unwrap().0 == defaults.base_url->0@,
        login_of(raw, defaults) is Some ==> raw.email is Some && login_of(raw, defaults).unwrap().1 == trim(
            raw.email->0@,
        ) && raw.password is Some && login_of(raw, defaults).unwrap().2 == raw.password->0@
            && raw.password->0@.len() > 0,
        raw.base_url is Some && trim(raw.base_url->0@).len() > 0 && raw.email is Some && trim(
            raw.email->0@,
        ).len() > 0 && raw.password is Some && raw.password->0@.len() > 0 ==> login_of(raw, defaults)
            == Some((trim(raw.base_url->0@), trim(raw.email->0@), raw.password->0@)),
{
}

fn nonblank_exec(v: &Option<String>) -> (r: Option<String>)
    ensures
        opt_str(r) == nonblank(opt_str(*v)),
{
    match v {
        Some(s) => if is_blank(s.as_str()) {
            None
        } else {
            Some(trimmed(s.as_str()))
        },
        None => None,
    }
}

/// Reads a form submission; the error message when a field is missing.
pub fn parse_login_input(raw: PartialLoginInput, defaults: &LocalAuthDefaults) -> (r: Result<LoginInput, String>)
    ensures
        match (r, login_of(raw, *defaults)) {
            (Ok(l), Some((b, e, p))) => l.base_url@ == b && l.email@ == e && l.password@ == p,
            (Err(m), None) => m@ == missing_fields_message(),
            _ => false,
        },
{
    let base_url = match nonblank_exec(&raw.base_url) {
        Some(b) => Some(b),
        None => defaults.base_url.clone(),
    };
    let email = nonblank_exec(&raw.email);
    let password = match raw.password {
        Some(p) => if p.as_str().is_empty() {
            None
        } else {
            Some(p)
        },
        None => None,
    };
    match (base_url, email, password) {
        (Some(base_url), Some(email), Some(password)) => Ok(LoginInput { base_url, email, password }),
        _ => Err(owned("Base URL, email, and password are required.")),
    }
}

/// The HTML escape of one character.
pub open spec fn escape_char(c: char) -> Seq<char> {
    if c == '&' {
        "&amp;"@
    } else if c == '<' {
        "&lt;"@
    } else if c == '>' {
        "&gt;"@
    } else if c == '"' {
        "&quot;"@
    } else if c == '\'' {
        "&#39;"@
    } else {
        seq![c]
    }
}

/// `s` with `&`, `<`, `>`, `"` and `'` escaped for HTML.
pub open spec fn escaped(s: Seq<char>) -> Seq<char>
    decreases s.len(),
{
    if s.len() == 0 {
        Seq::empty()
    } else {
        escaped(s.drop_last()) + escape_char(s.last())
    }
}

/// Escapes text for an HTML attribute or element.
pub fn escape_html(value: &str) -> (r: String)
    ensures
        r@ == escaped(value@),
{
    let v = crate::text::chars_of(value);
    let mut r = String::new();
    let mut i: usize = 0;
    while i < v.len()
        invariant
            i <= v@.len(),
            v@ == value@,
            r@ == escaped(v@.take(i as int)),
        decreases v@.len() - i,
    {
        assert(v@.take(i + 1).drop_last() =~= v@.take(i as int));
        let c = v[i];
        if c == '&' {
            r.append("&amp;");
        } else if c == '<' {
            r.append("&lt;");
        } else if c == '>' {
            r.append("&gt;");
        } else if c == '"' {
            r.append("&quot;");
        } else if c == '\'' {
            r.append("&#39;");
        } else {
            push_char(&mut r, c);
        }
        i += 1;
    }
    assert(v@.take(v@.len() as int) =~= v@);
    r
}

/// Part of the sign-in page.
pub const LOGIN_PAGE_HEAD: &'static str = r###"<!doctype html>
<html lang="en">
  <head>
    <meta charset="utf-8" />
    <meta name="viewport" content="width=device-width, initial-scale=1" />
    <title>Docmost MCP Sign In</title>
    <style>
      :root {
        color-scheme: dark;
        --bg: #0b1020;
        --panel: #141b34;
        --panel-border: #2d3763;
        --text: #f4f7ff;
        --muted: #aab4d6;
        --accent: #7dd3fc;
        --accent-strong: #38bdf8;
        --danger: #fca5a5;
      }
      * { box-sizing: border-box; }
      body {
        margin: 0;
        min-height: 100vh;
        display: grid;
        place-items: center;
        background:
          radial-gradient(circle at top, rgba(56, 189, 248, 0.18), transparent 35%),
          linear-gradient(180deg, #0b1020 0%, #080c18 100%);
        font-family: ui-sans-serif, system-ui, -apple-system, BlinkMacSystemFont, "Segoe UI", sans-serif;
        color: var(--text);
      }
      .card {
        width: min(92vw, 480px);
        padding: 28px;
        border-radius: 20px;
        border: 1px solid var(--panel-border);
        background: rgba(20, 27, 52, 0.92);
        box-shadow: 0 18px 45px rgba(0, 0, 0, 0.32);
      }
      h1 { margin: 0 0 12px; font-size: 1.6rem; }
      p { margin: 0 0 16px; color: var(--muted); line-height: 1.5; font-size: 0.9rem; }
      label { display: block; margin-bottom: 12px; font-size: 0.92rem; }
      input {
        width: 100%; margin-top: 5px; padding: 10px 12px; border-radius: 10px;
        border: 1px solid #3b4a85; background: #0b1227; color: var(--text); font-size: 0.92rem;
      }
      button {
        width: 100%; margin-top: 8px; padding: 12px 14px; border: 0; border-radius: 10px;
        background: linear-gradient(135deg, var(--accent), var(--accent-strong));
        color: #04101a; font-weight: 700; cursor: pointer;
      }
      button:disabled { opacity: 0.7; cursor: progress; }
      .status { min-height: 22px; margin-top: 14px; color: var(--muted); }
      .status.error { color: var(--danger); }
      .status.success { color: #86efac; }
    </style>
  </head>
  <body>
    <main class="card">
      <h1>Sign in to Docmost</h1>
      <p>
        Credentials are sent only to the local MCP process, which then signs in to your Docmost instance.
      </p>
      <form id="login-form">
        <label>
          Docmost Base URL
          <input id="baseUrl" name="baseUrl" value=""###;

/// Part of the sign-in page.
pub const LOGIN_PAGE_AFTER_BASE_URL: &'static str = r###"" placeholder="https://docs.example.com" "###;

/// Part of the sign-in page.
pub const LOGIN_PAGE_AFTER_READONLY: &'static str = r###" required />
        </label>
        <p>"###;

/// Part of the sign-in page.
pub const LOGIN_PAGE_AFTER_HINT: &'static str = r###"</p>
        <label>
          Email
          <input id="email" name="email" type="email" value=""###;

/// Part of the sign-in page.
pub const LOGIN_PAGE_TAIL: &'static str = r###"" placeholder="you@example.com" required />
        </label>
        <label>
          Password
          <input id="password" name="password" type="password" placeholder="Your Docmost password" required />
        </label>
        <button id="submit-button" type="submit">Authenticate</button>
        <div id="status" class="status" role="status"></div>
      </form>
    </main>
    <script>
      const form = document.getElementById("login-form");
      const status = document.getElementById("status");
      const submitButton = document.getElementById("submit-button");

      form.addEventListener("submit", async (event) => {
        event.preventDefault();
        submitButton.disabled = true;
        status.className = "status";
        status.textContent = "Signing in...";

        const payload = {
          baseUrl: document.getElementById("baseUrl").value,
          email: document.getElementById("email").value,
          password: document.getElementById("password").value
        };

        try {
          const response = await fetch("/auth", {
            method: "POST",
            headers: { "content-type": "application/json" },
            body: JSON.stringify(payload)
          });
          const result = await response.json();

          if (!response.ok || !result.ok) {
            throw new Error(result.error || "Authentication failed");
          }

          status.className = "status success";
          status.textContent = "Authenticated. Finishing sign-in...";
          window.location.assign(result.redirectUrl || "/success");
        } catch (error) {
          status.className = "status error";
          status.textContent = error instanceof Error ? error.message : String(error);
          submitButton.disabled = false;
        }
      });
    </script>
  </body>
</html>"###;

/// The page shown once sign-in has completed.
pub const SUCCESS_PAGE: &'static str = r###"<!doctype html>
<html lang="en">
  <head>
    <meta charset="utf-8" />
    <meta name="viewport" content="width=device-width, initial-scale=1" />
    <title>Docmost MCP</title>
    <style>
      :root { color-scheme: dark; }
      body {
        margin: 0; min-height: 100vh; display: grid; place-items: center;
        background: linear-gradient(180deg, #0b1020 0%, #080c18 100%);
        font-family: ui-sans-serif, system-ui, -apple-system, BlinkMacSystemFont, "Segoe UI", sans-serif;
        color: #aab4d6;
      }
      .msg { text-align: center; max-width: 460px; line-height: 1.6; }
      h2 { color: #f4f7ff; margin-bottom: 8px; }
      a { color: #7dd3fc; }
    </style>
  </head>
  <body>
    <div class="msg">
      <h2>Authentication Succeeded</h2>
      <p>This window can close now.</p>
    </div>
    <script>
      setTimeout(() => {
        try { window.close(); } catch {}
      }, 400);
    </script>
  </body>
</html>"###;

/// The readonly attribute of the base URL field.
pub open spec fn readonly_attr(readonly: bool) -> Seq<char> {
    if readonly {
        "readonly"@
    } else {
        ""@
    }
}

/// The hint under the base URL field.
pub open spec fn base_url_hint(readonly: bool) -> Seq<char> {
    if readonly {
        "Configured by the MCP server startup options."@
    } else {
        "Use the full Docmost URL, for example https://docs.example.com."@
    }
}

/// The sign-in page, filled in with the escaped defaults.
pub open spec fn login_page(d: LocalAuthDefaults) -> Seq<char> {
    LOGIN_PAGE_HEAD@ + escaped(match opt_str(d.base_url) {
        Some(b) => b,
        None => Seq::empty(),
    }) + LOGIN_PAGE_AFTER_BASE_URL@ + readonly_attr(d.base_url_readonly) + LOGIN_PAGE_AFTER_READONLY@
        + base_url_hint(d.base_url_readonly) + LOGIN_PAGE_AFTER_HINT@ + escaped(match opt_str(d.email) {
        Some(e) => e,
        None => Seq::empty(),
    }) + LOGIN_PAGE_TAIL@
}

/// The sign-in page.
pub fn render_login_html(defaults: &LocalAuthDefaults) -> (r: String)
    ensures
        r@ == login_page(*defaults),
{
    proof {
        reveal_strlit("");
    }
    let base_url = escape_html(match &defaults.base_url {
        Some(b) => b.as_str(),
        None => "",
    });
    let email = escape_html(match &defaults.email {
        Some(e) => e.as_str(),
        None => "",
    });
    let readonly = if defaults.base_url_readonly {
        "readonly"
    } else {
        ""
    };
    let hint = if defaults.base_url_readonly {
        "Configured by the MCP server startup options."
    } else {
        "Use the full Docmost URL, for example https://docs.example.com."
    };
    let mut r = cat3(LOGIN_PAGE_HEAD, base_url.as_str(), LOGIN_PAGE_AFTER_BASE_URL);
    r.append(readonly);
    r.append(LOGIN_PAGE_AFTER_READONLY);
    r.append(hint);
    r.append(LOGIN_PAGE_AFTER_HINT);
    r.append(email.as_str());
    r.append(LOGIN_PAGE_TAIL);
    r
}

/// The page shown once sign-in has completed.
pub fn render_success_html() -> (r: String)
    ensures
        r@ == SUCCESS_PAGE@,
{
    owned(SUCCESS_PAGE)
}

/// The address of the local page on `port`.
pub open spec fn local_url(port: u16) -> Seq<char> {
    "http://127.0.0.1:"@ + decimal(port as nat)
}

/// What the sign-in window is opened with, for the local server on `port`.
pub fn auth_window_session(port: u16) -> (s: AuthWindowSession)
    ensures
        s.login_url@ == local_url(port) + "/login"@,
        s.success_url@ == local_url(port) + "/success"@,
        s.fallback_url@ == local_url(port) + "/login"@,
        s.window_title@ == "Docmost Sign In"@,
        s.window_width == 500,
        s.window_height == 680,
{
    let url = cat("http://127.0.0.1:", decimal_string(port as u64).as_str());
    AuthWindowSession {
        login_url: cat(url.as_str(), "/login"),
        success_url: cat(url.as_str(), "/success"),
        fallback_url: cat(url.as_str(), "/login"),
        window_title: owned("Docmost Sign In"),
        window_width: 500,
        window_height: 680,
    }
}

/// How long the local server waits for a sign-in: the given time, else
/// five minutes.
pub fn auth_timeout_ms(timeout_ms: Option<u64>) -> (r: u64)
    ensures
        r == match timeout_ms {
            Some(t) => t,
            None => 300000,
        },
{
    match timeout_ms {
        Some(t) => t,
        None => 5 * 60 * 1000,
    }
}

/// The HTTP status and reply for a submission's outcome: 200 and a
/// redirect to the success page, or 400 and the error.
pub fn auth_reply(outcome: Result<(), String>) -> (r: (u16, AuthResponse))
    ensures
        match outcome {
            Ok(()) => r.0 == 200 && r.1.ok && (r.1.redirect_url matches Some(u) && u@ == "/success"@)
                && r.1.error is None,
            Err(m) => r.0 == 400 && !r.1.ok && r.1.redirect_url is None && r.1.error == Some(m),
        },
{
    match outcome {
        Ok(()) => (200, AuthResponse::success(owned("/success"))),
        Err(m) => (400, AuthResponse::error(m)),
    }
}

/// The model of an outcome: `Ok`, or the error message.
pub open spec fn outcome_view(o: Result<(), String>) -> Result<(), Seq<char>> {
    match o {
        Ok(()) => Ok(()),
        Err(m) => Err(m@),
    }
}

/// The settled outcome after one more outcome arrives: the first one stays.
pub open spec fn settle_step(
    state: Option<Result<(), Seq<char>>>,
    outcome: Result<(), Seq<char>>,
) -> Option<Result<(), Seq<char>>> {
    match state {
        Some(first) => Some(first),
        None => Some(outcome),
    }
}

/// The sign-in's settlement: the first outcome (success, failure or
/// timeout) is kept and delivered; later ones are dropped.
pub struct Settlement {
    first: Option<Result<(), String>>,
}

impl Settlement {
    /// The outcome settled so far, if any.
    pub closed spec fn outcome(&self) -> Option<Result<(), Seq<char>>> {
        match self.first {
            Some(o) => Some(outcome_view(o)),
            None => None,
        }
    }

    pub open spec fn is_settled(&self) -> bool {
        self.outcome() is Some
    }

    /// Nothing settled yet.
    pub fn new() -> (s: Settlement)
        ensures
            s.outcome() is None,
    {
        Settlement { first: None }
    }

    /// Settles on `outcome` unless already settled. Returns the outcome to
    /// deliver: `outcome` itself for the first call, nothing afterwards.
    pub fn finish(&mut self, outcome: Result<(), String>) -> (delivered: Option<Result<(), String>>)
        ensures
            final(self).outcome() == settle_step(old(self).outcome(), outcome_view(outcome)),
            match delivered {
                Some(d) => old(self).outcome() is None && outcome_view(d) == outcome_view(outcome),
                None => old(self).outcome() is Some,
            },
    {
        if self.first.is_some() {
            return None;
        }
        let kept = match &outcome {
            Ok(()) => Ok(()),
            Err(m) => Err(owned(m.as_str())),
        };
        self.first = Some(kept);
        Some(outcome)
    }
}

/// Completion is idempotent: once an outcome is settled, every later
/// outcome leaves it as it is, and the first one settled is the one kept.
pub proof fn law_first_outcome_kept(
    state: Option<Result<(), Seq<char>>>,
    first: Result<(), Seq<char>>,
    later: Result<(), Seq<char>>,
)
    ensures
        settle_step(settle_step(state, first), later) == settle_step(state, first),
        settle_step(None, first) == Some(first),
        state is Some ==> settle_step(state, later) == state,
{
}

/// The settlement after `outcomes` are settled in order, starting from
/// `state`.
pub open spec fn settled_after(
    state: Option<Result<(), Seq<char>>>,
    outcomes: Seq<Result<(), Seq<char>>>,
) -> Option<Result<(), Seq<char>>>
    decreases outcomes.len(),
{
    if outcomes.len() == 0 {
        state
    } else {
        settled_after(settle_step(state, outcomes[0]), outcomes.drop_first())
    }
}

/// How many of `outcomes`, settled in order from `state`, `finish` hands
/// over for delivery (and so for the one shutdown signal).
pub open spec fn delivered_count(
    state: Option<Result<(), Seq<char>>>,
    outcomes: Seq<Result<(), Seq<char>>>,
) -> nat
    decreases outcomes.len(),
{
    if outcomes.len() == 0 {
        0
    } else {
        (if state is None { 1nat } else { 0nat }) + delivered_count(
            settle_step(state, outcomes[0]),
            outcomes.drop_first(),
        )
    }
}

/// However many outcomes arrive, at most one is delivered, none once the
/// sign-in is settled, and from a fresh start exactly the first one, which
/// is also the outcome kept.
pub proof fn law_delivered_at_most_once(
    state: Option<Result<(), Seq<char>>>,
    outcomes: Seq<Result<(), Seq<char>>>,
)
    ensures
        delivered_count(state, outcomes) <= 1,
        state is Some ==> delivered_count(state, outcomes) == 0 && settled_after(state, outcomes)
            == state,
        state is None && outcomes.len() > 0 ==> delivered_count(state, outcomes) == 1
            && settled_after(state, outcomes) == Some(outcomes[0]),
    decreases outcomes.len(),
{
    if outcomes.len() > 0 {
        let next = settle_step(state, outcomes[0]);
        law_delivered_at_most_once(next, outcomes.drop_first());
    }
}

} // verus!
