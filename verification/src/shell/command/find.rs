//! Find a file or a directory by its name. In the name to search for, `*`
//! stands for any text.

use crate::text::{same_text, to_chars};
use crate::tree::NodeKind;
use vstd::prelude::*;

verus! {

#[derive(Debug, Clone)]
pub struct Arguments {
    /// The directory to search in.
    pub directory: String,
    /// Whether the directories inside it are searched too.
    pub recursive: bool,
    /// The name to search for.
    pub name: String,
    /// The kind of node to search for.
    pub type_: Option<NodeKind>,
}

/// The kind of node that `word` names, if it names one.
pub open spec fn kind_named(word: Seq<char>) -> Option<NodeKind> {
    if word == "file"@ {
        Some(NodeKind::File)
    } else if word == "directory"@ {
        Some(NodeKind::Directory)
    } else {
        None
    }
}

/// Reads the kind of node that `word` names.
pub fn parse_kind(word: &str) -> (kind: Option<NodeKind>)
    ensures
        kind == kind_named(word@),
{
    if same_text(word, "file") {
        Some(NodeKind::File)
    } else if same_text(word, "directory") {
        Some(NodeKind::Directory)
    } else {
        None
    }
}

/// Whether `part` stands in `text` at `at`.
pub open spec fn stands_at(text: Seq<char>, part: Seq<char>, at: int) -> bool {
    0 <= at && at + part.len() <= text.len() && text.subrange(at, at + part.len()) == part
}

/// Whether `text` starts with `part`.
pub open spec fn starts_with(text: Seq<char>, part: Seq<char>) -> bool {
    stands_at(text, part, 0)
}

/// Whether `text` ends with `part`.
pub open spec fn ends_with(text: Seq<char>, part: Seq<char>) -> bool {
    stands_at(text, part, text.len() - part.len())
}

/// Whether `part` stands somewhere in `text`.
pub open spec fn contains(text: Seq<char>, part: Seq<char>) -> bool {
    exists|at: int| stands_at(text, part, at)
}

/// The parts of `pattern` between its `*`.
pub open spec fn parts_of(pattern: Seq<char>) -> Seq<Seq<char>>
    decreases pattern.len(),
{
    if pattern.len() == 0 {
        seq![Seq::<char>::empty()]
    } else {
        let before = parts_of(pattern.drop_last());
        if pattern.last() == '*' {
            before.push(Seq::empty())
        } else {
            before.drop_last().push(before.last().push(pattern.last()))
        }
    }
}

/// Whether `name` fits one part of a pattern: it starts with the first part,
/// ends with the last part, and holds every part.
pub open spec fn fits_part(name: Seq<char>, part: Seq<char>, first: bool, last: bool) -> bool {
    &&& first ==> starts_with(name, part)
    &&& last ==> ends_with(name, part)
    &&& contains(name, part)
}

/// Whether `name` fits `pattern`: it fits each of its parts.
pub open spec fn fits(name: Seq<char>, pattern: Seq<char>) -> bool {
    let parts = parts_of(pattern);
    forall|i: int|
        0 <= i < parts.len() ==> fits_part(name, #[trigger] parts[i], i == 0, i == parts.len() - 1)
}

/// The parts of a pattern are never none.
pub proof fn lemma_parts_not_empty(pattern: Seq<char>)
    ensures
        parts_of(pattern).len() >= 1,
    decreases pattern.len(),
{
    if pattern.len() > 0 {
        lemma_parts_not_empty(pattern.drop_last());
    }
}

fn split_pattern(pattern: &[char]) -> (parts: Vec<Vec<char>>)
    ensures
        parts@.len() == parts_of(pattern@).len(),
        parts@.len() >= 1,
        forall|i: int| 0 <= i < parts@.len() ==> (#[trigger] parts@[i])@ == parts_of(pattern@)[i],
{
    let mut parts: Vec<Vec<char>> = Vec::new();
    let mut current: Vec<char> = Vec::new();
    let mut i: usize = 0;
    while i < pattern.len()
        invariant
            0 <= i <= pattern@.len(),
            parts@.len() + 1 == parts_of(pattern@.take(i as int)).len(),
            forall|j: int|
                0 <= j < parts@.len() ==> (#[trigger] parts@[j])@ == parts_of(
                    pattern@.take(i as int),
                )[j],
            current@ == parts_of(pattern@.take(i as int)).last(),
        decreases pattern@.len() - i,
    {
        assert(pattern@.take(i + 1).drop_last() =~= pattern@.take(i as int));
        proof {
            lemma_parts_not_empty(pattern@.take(i as int));
        }
        if pattern[i] == '*' {
            parts.push(current);
            current = Vec::new();
        } else {
            current.push(pattern[i]);
        }
        i += 1;
    }
    assert(pattern@.take(pattern@.len() as int) =~= pattern@);
    parts.push(current);
    parts
}

fn check_at(text: &[char], part: &[char], at: usize) -> (stands: bool)
    requires
        at + part@.len() <= text@.len(),
    ensures
        stands == stands_at(text@, part@, at as int),
{
    let len = text.len();
    let mut i: usize = 0;
    while i < part.len()
        invariant
            0 <= i <= part@.len(),
            len == text@.len(),
            at + part@.len() <= len,
            text@.subrange(at as int, at + i) == part@.take(i as int),
        decreases part@.len() - i,
    {
        if text[at + i] != part[i] {
            assert(text@.subrange(at as int, at + part@.len())[i as int] != part@[i as int]);
            return false;
        }
        i += 1;
        assert(text@.subrange(at as int, at + i) =~= text@.subrange(at as int, at + i - 1).push(
            text@[at + i - 1],
        ));
        assert(part@.take(i as int) =~= part@.take(i - 1).push(part@[i - 1]));
    }
    assert(part@.take(part@.len() as int) =~= part@);
    true
}

fn check_contains(text: &[char], part: &[char]) -> (found: bool)
    ensures
        found == contains(text@, part@),
{
    if part.len() > text.len() {
        return false;
    }
    let last: usize = text.len() - part.len();
    let mut at: usize = 0;
    loop
        invariant
            0 <= at <= last,
            last == text@.len() - part@.len(),
            forall|k: int| 0 <= k < at ==> !stands_at(text@, part@, k),
        decreases last - at,
    {
        if check_at(text, part, at) {
            return true;
        }
        if at == last {
            return false;
        }
        at += 1;
    }
}

fn check_part(name: &[char], part: &[char], first: bool, last: bool) -> (fit: bool)
    ensures
        fit == fits_part(name@, part@, first, last),
{
    if part.len() > name.len() {
        return false;
    }
    if first && !check_at(name, part, 0) {
        return false;
    }
    if last && !check_at(name, part, name.len() - part.len()) {
        return false;
    }
    check_contains(name, part)
}

/// Tells whether `name` fits `pattern`.
pub fn name_matches(name: &str, pattern: &str) -> (matches: bool)
    ensures
        matches == fits(name@, pattern@),
{
    let name_chars = to_chars(name);
    let pattern_chars = to_chars(pattern);
    let parts = split_pattern(pattern_chars.as_slice());
    let count = parts.len();
    let mut i: usize = 0;
    while i < count
        invariant
            0 <= i <= count,
            count == parts@.len(),
            parts@.len() == parts_of(pattern@).len(),
            name_chars@ == name@,
            forall|j: int| 0 <= j < parts@.len() ==> (#[trigger] parts@[j])@ == parts_of(pattern@)[j],
            forall|j: int|
                0 <= j < i ==> fits_part(
                    name@,
                    #[trigger] parts_of(pattern@)[j],
                    j == 0,
                    j == count - 1,
                ),
        decreases count - i,
    {
        if !check_part(name_chars.as_slice(), parts[i].as_slice(), i == 0, i == count - 1) {
            assert(!fits_part(name@, parts_of(pattern@)[i as int], i == 0, i == count - 1));
            return false;
        }
        i += 1;
    }
    true
}

} // verus!
