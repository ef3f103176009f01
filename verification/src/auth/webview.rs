//! The sign-in window: how the native helper is started, when it reports
//! success, and what its exit codes mean.

use vstd::prelude::*;
use crate::text::{owned, cat, cat3, signed_decimal, signed_decimal_string, decimal, decimal_string, has_prefix, starts_with, strs, lemma_strs_push};
use crate::types::AuthWindowSession;

verus! {

/// The helper's exit code once sign-in completed.
pub const EXIT_SUCCESS: i32 = 0;

/// The helper's exit code when the window was closed.
pub const EXIT_CANCELLED: i32 = 2;

/// The helper's exit code when it failed.
pub const EXIT_FAILURE: i32 = 3;

/// How the sign-in page is shown.
#[derive(Debug, Clone, Copy, PartialEq, Eq)]
pub enum AuthWindowMode {
    /// In the native helper window.
    Native,
    /// In the system browser.
    Browser,
}

/// The helper exited after sign-in completed.
pub fn helper_exit_success(code: Option<i32>) -> (r: bool)
    ensures
        r == (code == Some(EXIT_SUCCESS)),
{
    match code {
        Some(c) => c == EXIT_SUCCESS,
        None => false,
    }
}

/// The helper window was closed before sign-in completed.
pub fn helper_exit_cancelled(code: Option<i32>) -> (r: bool)
    ensures
        r == (code == Some(EXIT_CANCELLED)),
{
    match code {
        Some(c) => c == EXIT_CANCELLED,
        None => false,
    }
}

/// Why the helper's exit ends the sign-in.
pub open spec fn helper_exit_message(code: Option<i32>) -> Seq<char> {
    if code == Some(EXIT_CANCELLED) {
        "The Docmost sign-in window was closed before authentication completed."@
    } else {
        match code {
            Some(c) => "The Docmost sign-in window exited unexpectedly (code "@ + signed_decimal(c as int)
                + ")."@,
            None => "The Docmost sign-in window exited unexpectedly."@,
        }
    }
}

/// The error message for the helper's exit code.
pub fn helper_exit_error_message(code: Option<i32>) -> (r: String)
    ensures
        r@ == helper_exit_message(code),
{
    if helper_exit_cancelled(code) {
        return owned("The Docmost sign-in window was closed before authentication completed.");
    }
    match code {
        Some(c) => cat3(
            "The Docmost sign-in window exited unexpectedly (code ",
            signed_decimal_string(c as i64).as_str(),
            ").",
        ),
        None => owned("The Docmost sign-in window exited unexpectedly."),
    }
}

/// What the wait for sign-in does when the helper exits.
pub enum HelperExitOutcome {
    /// Sign-in finished in the window: wait for the local server's result.
    AwaitCompletion,
    /// The sign-in failed with this message.
    Fail(String),
}

/// The outcome of the helper exiting with `code`.
pub fn helper_exit_outcome(code: Option<i32>) -> (r: HelperExitOutcome)
    ensures
        code == Some(EXIT_SUCCESS) ==> r is AwaitCompletion,
        code != Some(EXIT_SUCCESS) ==> (r matches HelperExitOutcome::Fail(m) && m@ == helper_exit_message(code)),
{
    if helper_exit_success(code) {
        HelperExitOutcome::AwaitCompletion
    } else {
        HelperExitOutcome::Fail(helper_exit_error_message(code))
    }
}

/// A navigation reaching the success page ends the sign-in.
pub fn is_auth_completed(candidate: &str, success_url: &str) -> (r: bool)
    ensures
        r == has_prefix(candidate@, success_url@),
{
    starts_with(candidate, success_url)
}

/// The arguments the native helper is started with.
pub open spec fn helper_args(s: AuthWindowSession) -> Seq<Seq<char>> {
    seq![
        "auth-window"@,
        "--url"@,
        s.login_url@,
        "--success-url"@,
        s.success_url@,
        "--title"@,
        s.window_title@,
        "--width"@,
        decimal(s.window_width as nat),
        "--height"@,
        decimal(s.window_height as nat),
    ]
}

fn push_arg(out: &mut Vec<String>, s: String)
    ensures
        strs(final(out)@) == strs(old(out)@).push(s@),
{
    proof {
        lemma_strs_push(out@, s);
    }
    out.push(s);
}

/// The arguments the native helper is started with.
pub fn native_helper_args(s: &AuthWindowSession) -> (r: Vec<String>)
    ensures
        strs(r@) == helper_args(*s),
{
    let mut r: Vec<String> = Vec::new();
    push_arg(&mut r, owned("auth-window"));
    push_arg(&mut r, owned("--url"));
    push_arg(&mut r, s.login_url.clone());
    push_arg(&mut r, owned("--success-url"));
    push_arg(&mut r, s.success_url.clone());
    push_arg(&mut r, owned("--title"));
    push_arg(&mut r, s.window_title.clone());
    push_arg(&mut r, owned("--width"));
    push_arg(&mut r, decimal_string(s.window_width as u64));
    push_arg(&mut r, owned("--height"));
    push_arg(&mut r, decimal_string(s.window_height as u64));
    assert(strs(r@) =~= helper_args(*s));
    r
}

} // verus!
