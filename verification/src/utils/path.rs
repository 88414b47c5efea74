//! Paths inside a package: rooted at `/`, with `/` between the names.

use crate::text::{from_chars, to_chars};
use vstd::prelude::*;

verus! {

/// The normal form that `relative_path::RelativePath::normalize` gives to a
/// relative path: without `.`, without empty names, and with each `..`
/// taking away the name before it where there is one.
pub uninterp spec fn normal_form(path: Seq<char>) -> Seq<char>;

/// Normalizes `path` with `relative_path::RelativePath::normalize`. The
/// normal form is a function of the text of the path.
#[verifier::external_body]
fn normalize_relative(path: &str) -> (normal: String)
    ensures
        normal@ == normal_form(path@),
{
    relative_path::RelativePath::new(path).normalize().into_string()
}

/// Whether `path` starts at the root.
pub open spec fn is_absolute(path: Seq<char>) -> bool {
    path.len() > 0 && path[0] == '/'
}

/// The absolute path that `path` names when the working directory is `base`:
/// `path` itself if it starts at the root, else the root followed by the
/// normal form of `base` joined with `path`.
pub open spec fn normalized_path(path: Seq<char>, base: Seq<char>) -> Seq<char> {
    if is_absolute(path) {
        path
    } else {
        seq!['/'] + normal_form(base + seq!['/'] + path)
    }
}

/// Makes `path` absolute: a path that does not start at the root is taken
/// from `base` on and normalized.
pub fn normalize_path(path: &str, base: &str) -> (normal: String)
    ensures
        normal@ == normalized_path(path@, base@),
{
    let path_chars = to_chars(path);
    if path_chars.len() > 0 && path_chars[0] == '/' {
        return from_chars(path_chars.as_slice());
    }
    let mut joined = to_chars(base);
    joined.push('/');
    let mut i: usize = 0;
    while i < path_chars.len()
        invariant
            0 <= i <= path_chars@.len(),
            joined@ == base@ + seq!['/'] + path_chars@.take(i as int),
        decreases path_chars@.len() - i,
    {
        joined.push(path_chars[i]);
        i += 1;
        assert(joined@ =~= base@ + seq!['/'] + path_chars@.take(i as int));
    }
    assert(path_chars@.take(path_chars@.len() as int) =~= path_chars@);
    let relative = normalize_relative(from_chars(joined.as_slice()).as_str());
    let relative_chars = to_chars(relative.as_str());
    let mut normal: Vec<char> = Vec::new();
    normal.push('/');
    let mut j: usize = 0;
    while j < relative_chars.len()
        invariant
            0 <= j <= relative_chars@.len(),
            normal@ == seq!['/'] + relative_chars@.take(j as int),
        decreases relative_chars@.len() - j,
    {
        normal.push(relative_chars[j]);
        j += 1;
        assert(normal@ =~= seq!['/'] + relative_chars@.take(j as int));
    }
    assert(relative_chars@.take(relative_chars@.len() as int) =~= relative_chars@);
    from_chars(normal.as_slice())
}

} // verus!
