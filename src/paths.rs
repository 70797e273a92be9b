//! Paths, held as text, and where the storage root lies.
use vstd::prelude::*;
use vstd::string::*;

verus! {

pub open spec fn is_absolute(path: Seq<char>) -> bool {
    path.len() > 0 && path[0] == '/'
}

/// `part` appended to `base` as one more component, as `Path::join` does on
/// Unix: an absolute `part` replaces `base`.
pub open spec fn path_join(base: Seq<char>, part: Seq<char>) -> Seq<char> {
    if is_absolute(part) || base.len() == 0 {
        part
    } else if base.last() == '/' {
        base + part
    } else {
        base + seq!['/'] + part
    }
}

pub fn path_is_absolute(path: &str) -> (r: bool)
    ensures
        r == is_absolute(path@),
{
    let n = path.unicode_len();
    n > 0 && path.get_char(0) == '/'
}

pub fn join(base: &str, part: &str) -> (r: String)
    ensures
        r@ == path_join(base@, part@),
{
    let n = base.unicode_len();
    if path_is_absolute(part) || n == 0 {
        String::from_str(part)
    } else if base.get_char(n - 1) == '/' {
        let mut r = String::from_str(base);
        r.append(part);
        r
    } else {
        let mut r = String::from_str(base);
        proof { reveal_strlit("/"); }
        r.append("/");
        r.append(part);
        proof { assert(r@ =~= base@ + seq!['/'] + part@); }
        r
    }
}

/// Why no storage root could be chosen.
#[derive(Debug, Clone, Copy, PartialEq, Eq, Structural)]
pub enum RootError {
    NoHomeDirectory,
}

/// The per-user data directory: `$XDG_DATA_HOME` where it is absolute, else
/// `~/.local/share`.
pub open spec fn local_data_dir(xdg_data_home: Option<Seq<char>>, home: Seq<char>) -> Seq<char> {
    match xdg_data_home {
        Some(x) if is_absolute(x) => x,
        _ => path_join(path_join(home, seq!['.', 'l', 'o', 'c', 'a', 'l']), seq!['s', 'h', 'a', 'r', 'e']),
    }
}

pub open spec fn storage_root_spec(
    override_root: Option<Seq<char>>,
    xdg_data_home: Option<Seq<char>>,
    home: Option<Seq<char>>,
) -> Result<Seq<char>, RootError> {
    match override_root {
        Some(r) => Ok(r),
        None => match home {
            None => Err(RootError::NoHomeDirectory),
            Some(h) => Ok(
                path_join(local_data_dir(xdg_data_home, h), seq!['z', 's', 'h', 'r', 'u', 'g']),
            ),
        },
    }
}

pub open spec fn opt_view(o: Option<String>) -> Option<Seq<char>> {
    match o {
        Some(s) => Some(s@),
        None => None,
    }
}

/// Chooses the storage root from the override variable, `$XDG_DATA_HOME` and
/// the home directory, each given where it is set.
pub fn storage_root_from(
    override_root: Option<String>,
    xdg_data_home: Option<String>,
    home: Option<String>,
) -> (r: Result<String, RootError>)
    ensures
        match (r, storage_root_spec(opt_view(override_root), opt_view(xdg_data_home), opt_view(home))) {
            (Ok(p), Ok(q)) => p@ == q,
            (Err(e), Err(f)) => e == f,
            _ => false,
        },
{
    match override_root {
        Some(root) => Ok(root),
        None => match home {
            None => Err(RootError::NoHomeDirectory),
            Some(h) => {
                let data_dir = match xdg_data_home {
                    Some(x) if path_is_absolute(x.as_str()) => x,
                    _ => {
                        proof {
                            reveal_strlit(".local");
                            reveal_strlit("share");
                        }
                        let local = join(h.as_str(), ".local");
                        join(local.as_str(), "share")
                    },
                };
                proof { reveal_strlit("zshrug"); }
                Ok(join(data_dir.as_str(), "zshrug"))
            },
        },
    }
}

} // verus!
