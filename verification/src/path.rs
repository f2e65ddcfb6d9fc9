//! Paths as text, with `/` between their parts and before an absolute path.
//!
//! No other separator is known here, and no drive or prefix. A program whose directories are
//! written otherwise opens its logs with an empty directory and puts its own before the path that
//! it is given when the writer starts.

use vstd::prelude::*;

use crate::error::{Error, IoError, IoErrorKind};

verus! {

/// `name` below the directory `dir`; an absolute `name` stands by itself.
pub open spec fn joined(dir: Seq<char>, name: Seq<char>) -> Seq<char> {
    if name.len() > 0 && name[0] == '/' {
        name
    } else if dir.len() == 0 || dir.last() == '/' {
        dir + name
    } else {
        dir + "/"@ + name
    }
}

/// The index of the last `/` in `path`, or -1 if there is none.
pub open spec fn last_slash(path: Seq<char>) -> int
    decreases path.len(),
{
    if path.len() == 0 {
        -1
    } else if path.last() == '/' {
        path.len() - 1
    } else {
        last_slash(path.drop_last())
    }
}

/// `path` without what adds nothing at its end: slashes, unless the path is the root, and parts
/// that are a single dot, unless it is the first part.
pub open spec fn trimmed(path: Seq<char>) -> Seq<char>
    decreases path.len(),
{
    if path.len() > 1 && (path.last() == '/' || (path.last() == '.' && path[path.len() - 2]
        == '/')) {
        trimmed(path.drop_last())
    } else {
        path
    }
}

/// The path without its last part, empty for the working directory; `None` if the path is the root
/// or empty.
pub open spec fn parent_of(path: Seq<char>) -> Option<Seq<char>> {
    let whole = trimmed(path);
    let slash = last_slash(whole);
    if whole.len() == 0 || (whole.len() == 1 && slash == 0) {
        None
    } else if slash < 0 {
        Some(Seq::empty())
    } else {
        Some(trimmed(whole.take(slash + 1)))
    }
}

/// What has to be done before a file can be made in a directory.
#[derive(Debug)]
pub enum DirStep {
    /// Nothing: the directory is there.
    Ready,
    /// This directory has to be made, with those above it.
    Create(String),
}

/// Joins a directory and a name.
pub fn join_path(dir: &str, name: &str) -> (path: String)
    ensures
        path@ == joined(dir@, name@),
{
    let name_len: usize = name.unicode_len();
    if name_len > 0 && name.get_char(0) == '/' {
        return name.to_owned();
    }
    let mut path = dir.to_owned();
    let dir_len: usize = dir.unicode_len();
    if dir_len > 0 && dir.get_char(dir_len - 1) != '/' {
        path.append("/");
    }
    path.append(name);
    path
}

/// How many of the first `len` characters of `path` are left when they are trimmed.
fn trimmed_len(path: &str, len: usize) -> (r: usize)
    requires
        len <= path@.len(),
    ensures
        r <= len,
        path@.take(r as int) == trimmed(path@.take(len as int)),
{
    let mut end: usize = len;
    while end > 1 && (path.get_char(end - 1) == '/' || (path.get_char(end - 1) == '.'
        && path.get_char(end - 2) == '/'))
        invariant
            end <= len <= path@.len(),
            trimmed(path@.take(end as int)) == trimmed(path@.take(len as int)),
        decreases end,
    {
        assert(path@.take(end as int).drop_last() =~= path@.take(end - 1));
        end = end - 1;
    }
    end
}

/// The path without its last part, if it has one.
pub fn parent_dir(path: &str) -> (dir: Option<String>)
    ensures
        dir is Some <==> parent_of(path@) is Some,
        dir matches Some(dir) ==> Some(dir@) == parent_of(path@),
{
    let len: usize = path.unicode_len();
    assert(path@.take(len as int) =~= path@);
    let whole: usize = trimmed_len(path, len);
    let mut end: usize = whole;
    while end > 0 && path.get_char(end - 1) != '/'
        invariant
            end <= whole <= path@.len(),
            last_slash(path@.take(whole as int)) == last_slash(path@.take(end as int)),
        decreases end,
    {
        assert(path@.take(end as int).drop_last() =~= path@.take(end - 1));
        end = end - 1;
    }
    if whole == 0 || (whole == 1 && end == 1) {
        return None;
    }
    if end == 0 {
        return Some(String::new());
    }
    assert(path@.take(whole as int).take(end as int) =~= path@.take(end as int));
    let top: usize = trimmed_len(path, end);
    assert(path@.subrange(0, top as int) =~= path@.take(top as int));
    Some(path.substring_char(0, top).to_owned())
}

/// What the error says when `path` has no directory.
pub open spec fn no_parent_text(path: Seq<char>) -> Seq<char> {
    "parent path (of "@ + path + ") is not a directory"@
}

/// What has to be done so that the directory of the file at `path` exists, given whether it does.
///
/// A path that is empty or the root is in no directory: that is an error.
pub fn ensure_parent_dir_exists(path: &str, exists: bool) -> (r: Result<DirStep, Error>)
    ensures
        r is Err <==> parent_of(path@) is None,
        r matches Err(e) ==> e matches Error::Io(e) && e.kind == IoErrorKind::InvalidInput
            && e.message@ == no_parent_text(path@),
        r is Ok && exists ==> r->Ok_0 is Ready,
        r is Ok && !exists ==> r->Ok_0 is Create && Some(r->Ok_0->Create_0@) == parent_of(path@),
{
    match parent_dir(path) {
        Some(dir) => if exists {
            Ok(DirStep::Ready)
        } else {
            Ok(DirStep::Create(dir))
        },
        None => {
            let mut message = "parent path (of ".to_owned();
            message.append(path);
            message.append(") is not a directory");
            Err(Error::Io(IoError { kind: IoErrorKind::InvalidInput, message }))
        },
    }
}

} // verus!
