//! Helpers at the edge of the library: the clock and home-directory expansion.
use vstd::prelude::*;
use vstd::string::*;

use crate::text::strip_prefix;

verus! {

/// Relies on `SystemTime::now` and `duration_since(UNIX_EPOCH)`: seconds since
/// the epoch, or 0 when the clock reads earlier than the epoch.
#[verifier::external_body]
pub fn time() -> (r: u64) {
    std::time::SystemTime::now()
        .duration_since(std::time::SystemTime::UNIX_EPOCH)
        .map(|d| d.as_secs())
        .unwrap_or(0)
}


/// `path` with a leading `~` standing for `home`: `~` alone becomes `home`,
/// `~/REST` becomes `REST` joined onto `home` (an absolute `REST` stays as it
/// is); without a home, or without a leading `~`, `path` is unchanged.
pub open spec fn expanded(path: Seq<char>, home: Option<Seq<char>>) -> Seq<char> {
    match home {
        None => path,
        Some(h) => if path == "~"@ {
            h
        } else if crate::text::starts_with(path, "~/"@) {
            let rest = path.subrange(2, path.len() as int);
            if rest.len() > 0 && rest[0] == '/' {
                rest
            } else {
                crate::loader::join_path(h, rest)
            }
        } else {
            path
        },
    }
}

/// Expands a leading `~` of `path` into `home`.
pub fn expanduser(path: &str, home: Option<&str>) -> (r: String)
    ensures
        r@ == expanded(path@, match home {
            Some(h) => Some(h@),
            None => None,
        }),
{
    proof {
        reveal_strlit("~");
        reveal_strlit("~/");
    }
    match home {
        None => String::from_str(path),
        Some(h) => {
            let pc = crate::text::chars_of(path);
            if pc.len() == 1 && pc[0] == '~' {
                assert(path@ =~= "~"@);
                return String::from_str(h);
            }
            assert(path@ != "~"@) by {
                if path@ == "~"@ {
                    assert(pc@.len() == 1 && pc@[0] == '~');
                }
            }
            match strip_prefix(path, "~/") {
                Some(rest) => {
                    let n = rest.as_str().unicode_len();
                    if n > 0 && rest.as_str().get_char(0) == '/' {
                        rest
                    } else {
                        let hn = h.unicode_len();
                        if hn == 0 {
                            rest
                        } else if h.get_char(hn - 1) == '/' {
                            String::from_str(h).concat(rest.as_str())
                        } else {
                            String::from_str(h).concat("/").concat(rest.as_str())
                        }
                    }
                },
                None => String::from_str(path),
            }
        },
    }
}

/// Text shown in a terminal colour.
pub enum Color {
    Red(String),
    Green(String),
}

/// The escape sequence that ends a colour.
pub const COLOR_END: &'static str = "\x1b[0m";
/// The escape sequence that starts red.
pub const COLOR_RED: &'static str = "\x1b[31m";
/// The escape sequence that starts green.
pub const COLOR_GREEN: &'static str = "\x1b[32m";

impl Color {
    /// The text wrapped in its colour's escape sequences.
    pub fn render(&self) -> (r: String)
        ensures
            self matches Color::Red(t) ==> r@ == COLOR_RED@ + t@ + COLOR_END@,
            self matches Color::Green(t) ==> r@ == COLOR_GREEN@ + t@ + COLOR_END@,
    {
        match self {
            Color::Red(t) => String::from_str(COLOR_RED).concat(t.as_str()).concat(COLOR_END),
            Color::Green(t) => String::from_str(COLOR_GREEN).concat(t.as_str()).concat(COLOR_END),
        }
    }
}

} // verus!
