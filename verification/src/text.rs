//! Comparisons of text, character by character.
use vstd::prelude::*;
use vstd::string::spec_iter;
use vstd::std_specs::iter::IteratorSpec;

verus! {

broadcast use vstd::string::axiom_spec_iter;

/// `needle` stands in `text` at position `at`.
pub open spec fn occurs_at(text: Seq<char>, needle: Seq<char>, at: int) -> bool {
    0 <= at && at + needle.len() <= text.len() && text.subrange(at, at + needle.len()) == needle
}

/// `needle` stands somewhere in `text`.
pub open spec fn occurs_in(text: Seq<char>, needle: Seq<char>) -> bool {
    exists|at: int| occurs_at(text, needle, at)
}

/// The characters of a string.
pub fn chars_of(text: &str) -> (chars: Vec<char>)
    ensures
        chars@ == text@,
{
    let mut chars: Vec<char> = Vec::new();
    for c in it: text.chars()
        invariant
            it.seq() == spec_iter(text).remaining(),
            chars@.len() == it.index(),
            forall|i: int| 0 <= i < it.index() ==> chars@[i] == it.seq()[i],
    {
        chars.push(c);
    }
    assert(chars@ =~= text@);
    chars
}

/// Whether `needle` stands in `text` at position `at`.
fn matches_at(text: &Vec<char>, needle: &Vec<char>, at: usize) -> (found: bool)
    requires
        at + needle@.len() <= text@.len(),
    ensures
        found == occurs_at(text@, needle@, at as int),
{
    let mut i: usize = 0;
    while i < needle.len()
        invariant
            i <= needle@.len(),
            at + needle@.len() <= text.len(),
            forall|j: int| 0 <= j < i ==> text@[at + j] == needle@[j],
        decreases needle@.len() - i,
    {
        if text[at + i] != needle[i] {
            assert(text@.subrange(at as int, at + needle@.len())[i as int] != needle@[i as int]);
            return false;
        }
        i += 1;
    }
    assert(text@.subrange(at as int, at + needle@.len()) =~= needle@);
    true
}

/// Whether two strings hold the same characters.
pub fn same_text(a: &str, b: &str) -> (same: bool)
    ensures
        same == (a@ == b@),
{
    let left = chars_of(a);
    let right = chars_of(b);
    if left.len() != right.len() {
        return false;
    }
    let same = matches_at(&left, &right, 0);
    assert(left@.subrange(0, left@.len() as int) =~= left@);
    same
}

/// Whether `text` begins with `prefix`.
pub fn starts_with(text: &str, prefix: &str) -> (begins: bool)
    ensures
        begins == occurs_at(text@, prefix@, 0),
{
    let all = chars_of(text);
    let head = chars_of(prefix);
    if head.len() > all.len() {
        return false;
    }
    matches_at(&all, &head, 0)
}

/// Whether `needle` stands somewhere in `text`.
pub fn contains(text: &str, needle: &str) -> (found: bool)
    ensures
        found == occurs_in(text@, needle@),
{
    let all = chars_of(text);
    let part = chars_of(needle);
    if part.len() > all.len() {
        assert forall|at: int| !occurs_at(all@, part@, at) by {}
        return false;
    }
    let last = all.len() - part.len();
    let mut at: usize = 0;
    while at <= last
        invariant
            last == all@.len() - part@.len(),
            at <= last + 1,
            all@ == text@,
            part@ == needle@,
            forall|k: int| 0 <= k < at ==> !occurs_at(all@, part@, k),
        decreases last + 1 - at,
    {
        if matches_at(&all, &part, at) {
            assert(occurs_at(text@, needle@, at as int));
            return true;
        }
        if at == last {
            assert forall|k: int| !occurs_at(all@, part@, k) by {}
            return false;
        }
        at += 1;
    }
    assert forall|k: int| !occurs_at(all@, part@, k) by {}
    false
}

/// Whether one of the strings of `list` holds exactly the characters of
/// `text`.
pub fn any_same_text(list: &Vec<String>, text: &str) -> (found: bool)
    ensures
        found == exists|i: int| 0 <= i < list@.len() && #[trigger] list@[i]@ == text@,
{
    let mut i: usize = 0;
    while i < list.len()
        invariant
            i <= list@.len(),
            forall|j: int| 0 <= j < i ==> #[trigger] list@[j]@ != text@,
        decreases list@.len() - i,
    {
        if same_text(list[i].as_str(), text) {
            return true;
        }
        i += 1;
    }
    false
}

} // verus!
