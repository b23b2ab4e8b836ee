//! Destination path resolution. An absolute destination is used unchanged; a
//! relative one is resolved against the platform's downloads directory, and
//! the parent directory that has to exist before the destination file can be
//! created is computed here. Looking up the downloads directory and creating
//! directories are I/O and happen in the surrounding application; this module
//! decides what the resolved path and the directory to create are.

use vstd::prelude::*;
use vstd::string::StrSliceExecFns;
use vstd::string::StringExecFns;

use crate::errors::DownloadError;

verus! {

/// A path is absolute exactly when it starts with a path separator.
pub open spec fn spec_is_absolute(s: Seq<char>) -> bool {
    s.len() > 0 && s[0] == '/'
}

/// Index of the last path separator in `s`, or -1 if there is none.
pub open spec fn spec_last_slash(s: Seq<char>) -> int
    decreases s.len(),
{
    if s.len() == 0 {
        -1
    } else if s[s.len() - 1] == '/' {
        s.len() - 1
    } else {
        spec_last_slash(s.drop_last())
    }
}

/// The destination as it will be opened, together with the directory that
/// must be created first (present only for relative destinations).
#[derive(Debug)]
pub struct ResolvedDestination {
    /// The absolute path the downloaded bytes go to.
    pub path: String,
    /// The parent directory of `path`, to be created (with all of its
    /// ancestors) before the destination file is opened. `None` for an
    /// absolute destination, whose parent is the caller's responsibility.
    pub dir_to_create: Option<String>,
}

/// Executable check for [`spec_is_absolute`].
pub fn is_absolute(p: &str) -> (r: bool)
    ensures
        r == spec_is_absolute(p@),
{
    if p.unicode_len() == 0 {
        false
    } else {
        p.get_char(0) == '/'
    }
}

/// Index of the last `/` in `p`, if any.
fn last_slash_index(p: &str) -> (r: Option<usize>)
    ensures
        match r {
            Some(i) => i == spec_last_slash(p@) && i < p@.len(),
            None => spec_last_slash(p@) == -1,
        },
{
    let n = p.unicode_len();
    let mut i = n;
    proof {
        assert(p@.subrange(0, n as int) =~= p@);
    }
    loop
        invariant
            i <= n,
            n == p@.len(),
            spec_last_slash(p@) == spec_last_slash(p@.subrange(0, i as int)),
        decreases i,
    {
        if i == 0 {
            proof {
                assert(p@.subrange(0, 0) =~= Seq::<char>::empty());
            }
            return None;
        }
        i = i - 1;
        let c = p.get_char(i);
        proof {
            assert(p@.subrange(0, i + 1).drop_last() =~= p@.subrange(0, i as int));
            assert(p@.subrange(0, i + 1).last() == p@[i as int]);
        }
        if c == '/' {
            return Some(i);
        }
    }
}

/// What a relative destination resolves to: the downloads directory, a
/// separator, and the destination itself.
pub open spec fn spec_joined(dir: Seq<char>, rel: Seq<char>) -> Seq<char> {
    dir + "/"@ + rel
}

/// The directory that must exist before the resolved file can be created:
/// the downloads directory extended with every directory component of the
/// relative destination.
pub open spec fn spec_dir_to_create(dir: Seq<char>, rel: Seq<char>) -> Seq<char> {
    if spec_last_slash(rel) >= 0 {
        spec_joined(dir, rel.subrange(0, spec_last_slash(rel)))
    } else {
        dir
    }
}

/// Resolve a destination path.
///
/// An absolute `path` is returned unchanged and no directory creation is
/// requested. A relative `path` is resolved against `downloads_dir`; when no
/// downloads directory is available that is an environment error. For a
/// relative path the parent directory of the resolved destination is handed
/// back so the caller can create it before opening the file.
pub fn resolve(path: &str, downloads_dir: Option<&str>) -> (r: Result<
    ResolvedDestination,
    DownloadError,
>)
    ensures
        spec_is_absolute(path@) ==> match r {
            Ok(d) => d.path@ == path@ && d.dir_to_create is None,
            Err(_) => false,
        },
        !spec_is_absolute(path@) ==> match downloads_dir {
            None => r == Err::<ResolvedDestination, DownloadError>(DownloadError::Environment),
            Some(dir) => match r {
                Ok(d) => d.path@ == spec_joined(dir@, path@) && match d.dir_to_create {
                    Some(p) => p@ == spec_dir_to_create(dir@, path@),
                    None => false,
                },
                Err(_) => false,
            },
        },
{
    if is_absolute(path) {
        return Ok(ResolvedDestination { path: path.to_owned(), dir_to_create: None });
    }
    match downloads_dir {
        None => Err(DownloadError::Environment),
        Some(dir) => {
            let mut full = dir.to_owned();
            full.append("/");
            full.append(path);
            let parent = match last_slash_index(path) {
                Some(i) => {
                    let mut p = dir.to_owned();
                    p.append("/");
                    p.append(path.substring_char(0, i));
                    p
                },
                None => dir.to_owned(),
            };
            Ok(ResolvedDestination { path: full, dir_to_create: Some(parent) })
        },
    }
}

/// A relative destination resolved against an absolute downloads directory is
/// itself absolute: the resolved path starts where the downloads directory
/// starts.
pub proof fn lemma_resolved_relative_is_absolute(dir: Seq<char>, rel: Seq<char>)
    requires
        spec_is_absolute(dir),
    ensures
        spec_is_absolute(spec_joined(dir, rel)),
{
    assert(spec_joined(dir, rel)[0] == dir[0]);
}

} // verus!
