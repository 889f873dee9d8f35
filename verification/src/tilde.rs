//! Expansion of a leading `~` in a path to the user's home directory.

use vstd::prelude::*;

use crate::text::{string_chars, string_from_chars, subvec};

verus! {

/// Relies on `dirs::home_dir`: the home directory the platform reports,
/// if any. The answer depends on the environment, so nothing is assumed
/// about which path comes back.
#[verifier::external_body]
fn home_dir_string() -> (r: Option<String>) {
    dirs::home_dir().map(|p| p.to_string_lossy().into_owned())
}

/// What expanding `path` against a given home directory yields: a path
/// with no leading `~` is returned as it is; a leading `~` is replaced by
/// the home directory, and fails when there is none.
pub open spec fn tilde_expansion(path: Seq<char>, home: Option<Seq<char>>) -> Option<Seq<char>> {
    if path.len() == 0 || path[0] != '~' {
        Some(path)
    } else {
        match home {
            Some(h) => Some(h + path.skip(1)),
            None => None,
        }
    }
}

/// Expands a leading `~` of `path` against an explicit home directory.
pub fn tilde_expand_with(path: &str, home: Option<&str>) -> (r: Option<String>)
    ensures
        tilde_expansion(
            path@,
            match home {
                Some(h) => Some(h@),
                None => None,
            },
        ) == (match r {
            Some(s) => Some(s@),
            None => None::<Seq<char>>,
        }),
{
    let chars = string_chars(path);
    if chars.len() == 0 {
        Some(path.to_owned())
    } else if chars[0] != '~' {
        Some(path.to_owned())
    } else {
        match home {
            Some(h) => {
                let mut out = h.to_owned();
                let rest = subvec(&chars, 1, chars.len());
                assert(rest@ =~= path@.skip(1));
                let rest_string = string_from_chars(&rest);
                out.append(rest_string.as_str());
                Some(out)
            },
            None => None,
        }
    }
}

/// Expands a leading `~` of `path` to the home directory the platform
/// reports. Whatever the environment answers: a path with no leading `~`
/// comes back unchanged, and any result is the expansion against some
/// home directory.
pub fn tilde_expand(path: &str) -> (r: Option<String>)
    ensures
        exists|home: Option<Seq<char>>|
            #[trigger] tilde_expansion(path@, home) == (match r {
                Some(s) => Some(s@),
                None => None::<Seq<char>>,
            }),
        (path@.len() == 0 || path@[0] != '~') ==> (r matches Some(s) && s@ == path@),
{
    let home = home_dir_string();
    let r = match &home {
        Some(h) => tilde_expand_with(path, Some(h.as_str())),
        None => tilde_expand_with(path, None),
    };
    proof {
        let home_view: Option<Seq<char>> = match home {
            Some(h) => Some(h@),
            None => None,
        };
        assert(tilde_expansion(path@, home_view) == (match r {
            Some(s) => Some(s@),
            None => None::<Seq<char>>,
        }));
    }
    r
}

} // verus!
