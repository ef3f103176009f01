//! The command line of the native sign-in helper window.

use vstd::prelude::*;
use crate::text::{owned, cat, chars_of};
use crate::version::{parse_u32, parse_u32_range};

verus! {

/// The helper's settings.
#[derive(Debug, Clone, PartialEq, Eq)]
pub struct Options {
    pub url: String,
    pub success_url: String,
    pub title: String,
    pub width: u32,
    pub height: u32,
}

/// Why the helper's command line is unusable.
#[derive(Debug, Clone, PartialEq, Eq)]
pub enum OptionsError {
    /// The flag came last, without its value.
    MissingValue(String),
    InvalidWidth,
    InvalidHeight,
    UnknownArgument(String),
    MissingUrl,
    MissingSuccessUrl,
}

impl OptionsError {
    /// The message shown for the error.
    pub fn message(&self) -> (r: String)
        ensures
            r@ == match self {
                OptionsError::MissingValue(a) => "Missing value for "@ + a@,
                OptionsError::InvalidWidth => "Invalid integer value for --width"@,
                OptionsError::InvalidHeight => "Invalid integer value for --height"@,
                OptionsError::UnknownArgument(a) => "Unknown argument: "@ + a@,
                OptionsError::MissingUrl => "Missing --url"@,
                OptionsError::MissingSuccessUrl => "Missing --success-url"@,
            },
    {
        match self {
            OptionsError::MissingValue(a) => cat("Missing value for ", a.as_str()),
            OptionsError::InvalidWidth => owned("Invalid integer value for --width"),
            OptionsError::InvalidHeight => owned("Invalid integer value for --height"),
            OptionsError::UnknownArgument(a) => cat("Unknown argument: ", a.as_str()),
            OptionsError::MissingUrl => owned("Missing --url"),
            OptionsError::MissingSuccessUrl => owned("Missing --success-url"),
        }
    }
}

/// The settings read so far: url, success url, title, width, height.
pub struct ArgState {
    pub url: Option<Seq<char>>,
    pub success_url: Option<Seq<char>>,
    pub title: Seq<char>,
    pub width: u32,
    pub height: u32,
}

/// The outcome of reading the arguments from `i` on, from `st`: the final
/// settings, or the error met first.
pub open spec fn read_args(args: Seq<Seq<char>>, i: nat, st: ArgState) -> Result<ArgState, Seq<char>>
    decreases args.len() - i,
{
    if i >= args.len() {
        Ok(st)
    } else {
        let a = args[i as int];
        if a != "--url"@ && a != "--success-url"@ && a != "--title"@ && a != "--width"@ && a
            != "--height"@ {
            Err("Unknown argument: "@ + a)
        } else if i + 1 >= args.len() {
            Err("Missing value for "@ + a)
        } else {
            let v = args[(i + 1) as int];
            if a == "--url"@ {
                read_args(args, i + 2, ArgState { url: Some(v), ..st })
            } else if a == "--success-url"@ {
                read_args(args, i + 2, ArgState { success_url: Some(v), ..st })
            } else if a == "--title"@ {
                read_args(args, i + 2, ArgState { title: v, ..st })
            } else if a == "--width"@ {
                match parse_u32(v) {
                    Some(w) => read_args(args, i + 2, ArgState { width: w, ..st }),
                    None => Err("Invalid integer value for --width"@),
                }
            } else {
                match parse_u32(v) {
                    Some(h) => read_args(args, i + 2, ArgState { height: h, ..st }),
                    None => Err("Invalid integer value for --height"@),
                }
            }
        }
    }
}

/// The settings the helper's arguments give: the title defaults to
/// `Docmost Sign In`, the size to 500 by 680; `--url` and `--success-url`
/// are required.
pub open spec fn options_of(args: Seq<Seq<char>>) -> Result<(Seq<char>, Seq<char>, Seq<char>, u32, u32), Seq<char>> {
    match read_args(
        args,
        0,
        ArgState { url: None, success_url: None, title: "Docmost Sign In"@, width: 500, height: 680 },
    ) {
        Err(e) => Err(e),
        Ok(st) => match (st.url, st.success_url) {
            (None, _) => Err("Missing --url"@),
            (Some(_), None) => Err("Missing --success-url"@),
            (Some(u), Some(s)) => Ok((u, s, st.title, st.width, st.height)),
        },
    }
}

/// The text of an error.
pub open spec fn error_text(e: OptionsError) -> Seq<char> {
    match e {
        OptionsError::MissingValue(a) => "Missing value for "@ + a@,
        OptionsError::InvalidWidth => "Invalid integer value for --width"@,
        OptionsError::InvalidHeight => "Invalid integer value for --height"@,
        OptionsError::UnknownArgument(a) => "Unknown argument: "@ + a@,
        OptionsError::MissingUrl => "Missing --url"@,
        OptionsError::MissingSuccessUrl => "Missing --success-url"@,
    }
}

fn parse_u32_text(s: &str) -> (r: Option<u32>)
    ensures
        r == parse_u32(s@),
{
    let v = chars_of(s);
    let r = parse_u32_range(&v, 0, v.len());
    assert(v@.subrange(0, v@.len() as int) =~= s@);
    r
}

impl Options {
    /// Reads the helper's arguments (without the program name).
    pub fn from_args(args: &Vec<String>) -> (r: Result<Options, OptionsError>)
        ensures
            match (r, options_of(crate::startup_config::arg_views(args@))) {
                (Ok(o), Ok((u, s, t, w, h))) => o.url@ == u && o.success_url@ == s && o.title@ == t
                    && o.width == w && o.height == h,
                (Err(e), Err(m)) => error_text(e) == m,
                _ => false,
            },
    {
        let ghost av = crate::startup_config::arg_views(args@);
        let mut url: Option<String> = None;
        let mut success_url: Option<String> = None;
        let mut title = owned("Docmost Sign In");
        let mut width: u32 = 500;
        let mut height: u32 = 680;
        let ghost init = ArgState {
            url: None,
            success_url: None,
            title: "Docmost Sign In"@,
            width: 500,
            height: 680,
        };
        let mut index: usize = 0;
        while index < args.len()
            invariant
                index <= args@.len(),
                av == crate::startup_config::arg_views(args@),
                init == (ArgState { url: None, success_url: None, title: "Docmost Sign In"@, width: 500, height: 680 }),
                read_args(av, 0, init) == read_args(
                    av,
                    index as nat,
                    ArgState {
                        url: match url {
                            Some(u) => Some(u@),
                            None => None,
                        },
                        success_url: match success_url {
                            Some(u) => Some(u@),
                            None => None,
                        },
                        title: title@,
                        width,
                        height,
                    },
                ),
            decreases args@.len() - index,
        {
            let argument = args[index].as_str();
            assert(av[index as int] == argument@);
            let is_url = crate::text::same_text(argument, "--url");
            let is_success = crate::text::same_text(argument, "--success-url");
            let is_title = crate::text::same_text(argument, "--title");
            let is_width = crate::text::same_text(argument, "--width");
            let is_height = crate::text::same_text(argument, "--height");
            if !is_url && !is_success && !is_title && !is_width && !is_height {
                let e = OptionsError::UnknownArgument(owned(argument));
                assert(read_args(av, index as nat, ArgState {
                    url: match url {
                        Some(u) => Some(u@),
                        None => None,
                    },
                    success_url: match success_url {
                        Some(u) => Some(u@),
                        None => None,
                    },
                    title: title@,
                    width,
                    height,
                }) == Err::<ArgState, Seq<char>>("Unknown argument: "@ + argument@));
                assert(error_text(e) == "Unknown argument: "@ + argument@);
                return Err(e);
            }
            if index + 1 >= args.len() {
                return Err(OptionsError::MissingValue(owned(argument)));
            }
            let value = args[index + 1].clone();
            if is_url {
                url = Some(value);
            } else if is_success {
                success_url = Some(value);
            } else if is_title {
                title = value;
            } else if is_width {
                match parse_u32_text(value.as_str()) {
                    Some(w) => {
                        width = w;
                    },
                    None => {
                        return Err(OptionsError::InvalidWidth);
                    },
                }
            } else {
                match parse_u32_text(value.as_str()) {
                    Some(h) => {
                        height = h;
                    },
                    None => {
                        return Err(OptionsError::InvalidHeight);
                    },
                }
            }
            index += 2;
        }
        match (url, success_url) {
            (None, _) => Err(OptionsError::MissingUrl),
            (Some(_), None) => Err(OptionsError::MissingSuccessUrl),
            (Some(u), Some(s)) => Ok(Options { url: u, success_url: s, title, width, height }),
        }
    }
}

} // verus!
