//! Where the server finds the Docmost base URL: `--base-url VALUE` or
//! `--base-url=VALUE` on the command line, else `DOCMOST_BASE_URL`.

use std::collections::HashMap;
use vstd::prelude::*;
use crate::text::{
    trim, strip_trailing, has_prefix, trimmed, is_blank, starts_with, skip_chars,
    strip_trailing_exec,
};

verus! {

/// The startup options.
#[derive(Debug, Clone, PartialEq, Eq)]
pub struct StartupConfig {
    pub base_url: Option<String>,
}

impl Default for StartupConfig {
    fn default() -> (c: StartupConfig)
        ensures
            c.base_url is None,
    {
        StartupConfig { base_url: None }
    }
}

/// Why the startup options are unusable.
#[derive(Debug, Clone, Copy, PartialEq, Eq)]
pub enum StartupError {
    /// `--base-url` was the last argument.
    MissingBaseUrlValue,
    /// No base URL was given at all.
    MissingBaseUrl,
}

impl StartupError {
    /// The message shown to the user.
    pub fn message(&self) -> (r: String)
        ensures
            r@ == match self {
                StartupError::MissingBaseUrlValue => "Missing value for --base-url."@,
                StartupError::MissingBaseUrl => "A Docmost base URL is required. Pass --base-url or set DOCMOST_BASE_URL."@,
            },
    {
        match self {
            StartupError::MissingBaseUrlValue => String::from_str("Missing value for --base-url."),
            StartupError::MissingBaseUrl => String::from_str(
                "A Docmost base URL is required. Pass --base-url or set DOCMOST_BASE_URL.",
            ),
        }
    }
}

/// A base URL without surrounding whitespace or trailing slashes.
pub open spec fn normalized(url: Seq<char>) -> Seq<char> {
    strip_trailing(trim(url), '/')
}

/// `base_url.trim().trim_end_matches('/')`.
pub fn normalize_base_url(base_url: &str) -> (r: String)
    ensures
        r@ == normalized(base_url@),
{
    let t = trimmed(base_url);
    strip_trailing_exec(t.as_str(), '/')
}

/// The environment's base URL, trimmed; none when unset or blank.
pub open spec fn env_base_url(value: Option<Seq<char>>) -> Option<Seq<char>> {
    match value {
        Some(v) => if trim(v).len() > 0 {
            Some(trim(v))
        } else {
            None
        },
        None => None,
    }
}

/// The base URL the arguments from `i` on leave, starting from `cur`;
/// `None` when `--base-url` comes last without a value.
pub open spec fn scan_args(argv: Seq<Seq<char>>, i: nat, cur: Option<Seq<char>>) -> Option<
    Option<Seq<char>>,
>
    decreases argv.len() - i,
{
    if i >= argv.len() {
        Some(cur)
    } else if argv[i as int] == "--base-url"@ {
        if i + 1 < argv.len() {
            scan_args(argv, i + 2, Some(argv[(i + 1) as int]))
        } else {
            None
        }
    } else if has_prefix(argv[i as int], "--base-url="@) {
        scan_args(argv, i + 1, Some(argv[i as int].skip(11)))
    } else {
        scan_args(argv, i + 1, cur)
    }
}

/// The configuration for arguments `argv` and the environment's
/// `DOCMOST_BASE_URL` (if set): the last base URL given wins, the
/// environment's counting as given first; a blank one gives none.
pub open spec fn startup_config(argv: Seq<Seq<char>>, env_value: Option<Seq<char>>) -> Result<
    Option<Seq<char>>,
    StartupError,
> {
    match scan_args(argv, 0, env_base_url(env_value)) {
        None => Err(StartupError::MissingBaseUrlValue),
        Some(b) => Ok(
            match b {
                Some(u) => if trim(u).len() > 0 {
                    Some(normalized(u))
                } else {
                    None
                },
                None => None,
            },
        ),
    }
}

pub open spec fn arg_views(argv: Seq<String>) -> Seq<Seq<char>> {
    argv.map_values(|s: String| s@)
}

/// The configuration for `argv` and the environment's `DOCMOST_BASE_URL`
/// value.
pub fn startup_config_from(argv: &[String], env_value: Option<&str>) -> (r: Result<
    StartupConfig,
    StartupError,
>)
    ensures
        match (r, startup_config(arg_views(argv@), opt_view(env_value))) {
            (Ok(c), Ok(b)) => opt_string_view(c.base_url) == b,
            (Err(e), Err(f)) => e == f,
            _ => false,
        },
{
    proof {
        reveal_strlit("--base-url=");
    }
    let ghost args = arg_views(argv@);
    let mut base_url: Option<String> = match env_value {
        Some(v) => {
            if is_blank(v) {
                None
            } else {
                Some(trimmed(v))
            }
        },
        None => None,
    };
    let mut index: usize = 0;
    while index < argv.len()
        invariant
            index <= argv@.len(),
            args == arg_views(argv@),
            scan_args(args, 0, env_base_url(opt_view(env_value))) == scan_args(
                args,
                index as nat,
                opt_string_view(base_url),
            ),
        decreases argv@.len() - index,
    {
        let argument = argv[index].as_str();
        if crate::text::same_text(argument, "--base-url") {
            if index + 1 >= argv.len() {
                return Err(StartupError::MissingBaseUrlValue);
            }
            base_url = Some(argv[index + 1].clone());
            index += 2;
            continue;
        }
        if starts_with(argument, "--base-url=") {
            proof {
                reveal_strlit("--base-url=");
            }
            base_url = Some(skip_chars(argument, 11));
        }
        index += 1;
    }
    let mut config = StartupConfig::default();
    match base_url {
        Some(u) => {
            if !is_blank(u.as_str()) {
                config.base_url = Some(normalize_base_url(u.as_str()));
            }
        },
        None => {},
    }
    Ok(config)
}

pub open spec fn opt_view(v: Option<&str>) -> Option<Seq<char>> {
    match v {
        Some(s) => Some(s@),
        None => None,
    }
}

pub open spec fn opt_string_view(v: Option<String>) -> Option<Seq<char>> {
    match v {
        Some(s) => Some(s@),
        None => None,
    }
}

/// Whether `v` is what the environment `env` holds under the name `name`:
/// the value of a variable with that name, or nothing when none has it.
pub open spec fn env_holds(env: Map<String, String>, name: Seq<char>, v: Option<Seq<char>>) -> bool {
    match v {
        Some(x) => exists|k: String| #[trigger] env.contains_key(k) && k@ == name && env[k]@ == x,
        None => forall|k: String| #[trigger] env.contains_key(k) ==> k@ != name,
    }
}

/// At most one variable of `env` has the name `name` (as in any real
/// environment, whose names are distinct texts).
pub open spec fn name_unique(env: Map<String, String>, name: Seq<char>) -> bool {
    forall|a: String, b: String|
        #[trigger] env.contains_key(a) && #[trigger] env.contains_key(b) && a@ == name && b@ == name
            ==> a == b
}

/// Whether `r` is the configuration `b` (or its error).
pub open spec fn config_is(r: Result<StartupConfig, StartupError>, b: Result<Option<Seq<char>>, StartupError>) -> bool {
    match (r, b) {
        (Ok(c), Ok(u)) => opt_string_view(c.base_url) == u,
        (Err(e), Err(f)) => e == f,
        _ => false,
    }
}

/// Runs `HashMap::get` with a text key on a map keyed by `String`. As std
/// documents, `get` returns the value stored under the key equal to the one
/// given, and `String` keys are equal exactly when their texts are.
#[verifier::external_body]
fn env_get<'a>(env: &'a HashMap<String, String>, name: &str) -> (r: Option<&'a String>)
    ensures
        match r {
            Some(v) => exists|k: String| #[trigger] env@.contains_key(k) && k@ == name@ && env@[k] == *v,
            None => forall|k: String| #[trigger] env@.contains_key(k) ==> k@ != name@,
        },
{
    env.get(name)
}

/// The configuration for `argv` and the environment `env`: the value of
/// `DOCMOST_BASE_URL` in `env`, if any, is the fallback that a base URL on
/// the command line overrides.
pub fn parse_startup_config(argv: &[String], env: &HashMap<String, String>) -> (r: Result<
    StartupConfig,
    StartupError,
>)
    ensures
        exists|v: Option<Seq<char>>|
            env_holds(env@, "DOCMOST_BASE_URL"@, v) && #[trigger] config_is(
                r,
                startup_config(arg_views(argv@), v),
            ),
        (forall|k: String| #[trigger] env@.contains_key(k) ==> k@ != "DOCMOST_BASE_URL"@) ==> config_is(
            r,
            startup_config(arg_views(argv@), None),
        ),
        forall|k: String|
            #[trigger] env@.contains_key(k) && k@ == "DOCMOST_BASE_URL"@ && name_unique(
                env@,
                "DOCMOST_BASE_URL"@,
            ) ==> config_is(r, startup_config(arg_views(argv@), Some(env@[k]@))),
{
    let value: Option<&str> = match env_get(env, "DOCMOST_BASE_URL") {
        Some(v) => Some(v.as_str()),
        None => None,
    };
    let r = startup_config_from(argv, value);
    assert(env_holds(env@, "DOCMOST_BASE_URL"@, opt_view(value)));
    assert(config_is(r, startup_config(arg_views(argv@), opt_view(value))));
    r
}

/// The configured base URL, or the error that asks for one.
pub fn ensure_base_url(config: &StartupConfig) -> (r: Result<String, StartupError>)
    ensures
        match config.base_url {
            Some(u) => r matches Ok(v) && v@ == u@,
            None => r == Err::<String, StartupError>(StartupError::MissingBaseUrl),
        },
{
    match &config.base_url {
        Some(u) => Ok(u.clone()),
        None => Err(StartupError::MissingBaseUrl),
    }
}

} // verus!
