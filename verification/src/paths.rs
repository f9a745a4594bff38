//! Slash-separated paths as text.

use crate::text::chars_of;
use vstd::prelude::*;

verus! {

/// Whether a path starts at the root.
pub open spec fn is_absolute(path: Seq<char>) -> bool {
    path.len() > 0 && path[0] == '/'
}

/// A path below another: an absolute `part` stands for itself, any other is
/// appended to `base` with one slash between, unless `base` is empty or ends in one.
pub open spec fn path_join(base: Seq<char>, part: Seq<char>) -> Seq<char> {
    if is_absolute(part) {
        part
    } else if base.len() == 0 || base.last() == '/' {
        base + part
    } else {
        base.push('/') + part
    }
}

/// [`path_join`]: the path `part` below `base`.
pub fn join_path(base: &str, part: &str) -> (r: String)
    ensures
        r@ == path_join(base@, part@),
{
    let tail = chars_of(part);
    if tail.len() > 0 && tail[0] == '/' {
        return part.to_owned();
    }
    let cs = chars_of(base);
    let mut out = base.to_owned();
    if cs.len() > 0 && cs[cs.len() - 1] != '/' {
        out.push('/');
    }
    out.append(part);
    out
}

/// A path below another stands behind it with exactly one slash between them; an absolute path
/// stands for itself.
pub proof fn joined_paths_have_one_slash(base: Seq<char>, part: Seq<char>)
    ensures
        part.len() > 0 && part[0] == '/' ==> path_join(base, part) == part,
        (part.len() == 0 || part[0] != '/') && base.len() > 0 && base.last() != '/' ==> path_join(
            base,
            part,
        ) == base + seq!['/'] + part,
        (part.len() == 0 || part[0] != '/') && (base.len() == 0 || base.last() == '/')
            ==> path_join(base, part) == base + part,
{
    assert(base.push('/') =~= base + seq!['/']);
}

} // verus!
