//! Characters of a text and their Unicode properties.

use vstd::prelude::*;
use vstd::string::*;

verus! {

/// The character has the Unicode property `White_Space`.
pub uninterp spec fn unicode_whitespace(c: char) -> bool;

/// The character is a Unicode letter or number.
pub uninterp spec fn unicode_alphanumeric(c: char) -> bool;

/// Calls `char::is_whitespace`. Trusted: the answer depends on the character
/// alone.
#[verifier::external_body]
pub(crate) fn is_whitespace(c: char) -> (result: bool)
    ensures
        result == unicode_whitespace(c),
{
    c.is_whitespace()
}

/// Calls `char::is_alphanumeric`. Trusted: the answer depends on the character
/// alone.
#[verifier::external_body]
pub(crate) fn is_alphanumeric(c: char) -> (result: bool)
    ensures
        result == unicode_alphanumeric(c),
{
    c.is_alphanumeric()
}

/// The characters of a text.
pub fn to_chars(text: &str) -> (chars: Vec<char>)
    ensures
        chars@ == text@,
{
    let mut chars: Vec<char> = Vec::new();
    broadcast use axiom_spec_iter;

    for c in iter: text.chars()
        invariant
            chars@ == iter.seq().take(iter.index() as int),
            iter.seq() == text@,
    {
        chars.push(c);
    }
    chars
}

/// The end of `text` after leading white space.
pub open spec fn trimmed_start(text: Seq<char>) -> Seq<char>
    decreases text.len(),
{
    if text.len() > 0 && unicode_whitespace(text[0]) {
        trimmed_start(text.skip(1))
    } else {
        text
    }
}

/// The start of `text` before trailing white space.
pub open spec fn trimmed_end(text: Seq<char>) -> Seq<char>
    decreases text.len(),
{
    if text.len() > 0 && unicode_whitespace(text.last()) {
        trimmed_end(text.drop_last())
    } else {
        text
    }
}

/// `text` without white space at its ends.
pub open spec fn trimmed(text: Seq<char>) -> Seq<char> {
    trimmed_end(trimmed_start(text))
}

/// The bounds of `chars[start..end]` without white space at its ends.
pub fn trim(chars: &[char], start: usize, end: usize) -> (bounds: (usize, usize))
    requires
        start <= end <= chars@.len(),
    ensures
        start <= bounds.0 <= bounds.1 <= end,
        chars@.subrange(bounds.0 as int, bounds.1 as int) == trimmed(
            chars@.subrange(start as int, end as int),
        ),
{
    let ghost whole = chars@.subrange(start as int, end as int);
    let mut first: usize = start;
    while first < end && is_whitespace(chars[first])
        invariant
            start <= first <= end <= chars@.len(),
            trimmed_start(chars@.subrange(first as int, end as int)) == trimmed_start(whole),
        ensures
            start <= first <= end,
            chars@.subrange(first as int, end as int) == trimmed_start(whole),
        decreases end - first,
    {
        proof {
            let rest = chars@.subrange(first as int, end as int);
            assert(rest[0] == chars@[first as int]);
            assert(rest.skip(1) =~= chars@.subrange(first + 1, end as int));
        }
        first += 1;
    }
    let ghost middle = chars@.subrange(first as int, end as int);
    let mut last: usize = end;
    while last > first && is_whitespace(chars[last - 1])
        invariant
            first <= last <= end <= chars@.len(),
            trimmed_end(chars@.subrange(first as int, last as int)) == trimmed_end(middle),
        ensures
            first <= last <= end,
            chars@.subrange(first as int, last as int) == trimmed_end(middle),
        decreases last - first,
    {
        proof {
            let rest = chars@.subrange(first as int, last as int);
            assert(rest.last() == chars@[last - 1]);
            assert(rest.drop_last() =~= chars@.subrange(first as int, last - 1));
        }
        last -= 1;
    }
    (first, last)
}

/// `pattern` stands at position `at` of `text`.
pub open spec fn stands_at(text: Seq<char>, pattern: Seq<char>, at: int) -> bool {
    &&& 0 <= at
    &&& at + pattern.len() <= text.len()
    &&& text.subrange(at, at + pattern.len()) == pattern
}

/// `pattern` occurs in `text`.
pub open spec fn occurs(text: Seq<char>, pattern: Seq<char>) -> bool {
    exists|at: int| #[trigger] stands_at(text, pattern, at)
}

/// Whether `pattern` stands at position `at` of `text`.
pub fn matches_at(text: &[char], pattern: &[char], at: usize) -> (result: bool)
    ensures
        result == stands_at(text@, pattern@, at as int),
{
    if at > text.len() || pattern.len() > text.len() - at {
        return false;
    }
    let mut index: usize = 0;
    while index < pattern.len()
        invariant
            index <= pattern@.len(),
            at + pattern@.len() <= text@.len() <= usize::MAX,
            forall|i: int| 0 <= i < index ==> text@[at + i] == pattern@[i],
        decreases pattern@.len() - index,
    {
        if text[at + index] != pattern[index] {
            proof {
                assert(text@.subrange(at as int, at + pattern@.len())[index as int]
                    != pattern@[index as int]);
            }
            return false;
        }
        index += 1;
    }
    proof {
        assert(text@.subrange(at as int, at + pattern@.len()) =~= pattern@);
    }
    true
}

/// Whether `pattern` occurs in `text`.
pub fn contains(text: &[char], pattern: &[char]) -> (result: bool)
    ensures
        result == occurs(text@, pattern@),
{
    let mut at: usize = 0;
    while at < text.len()
        invariant
            at <= text@.len(),
            forall|i: int| 0 <= i < at ==> !#[trigger] stands_at(text@, pattern@, i),
        decreases text@.len() - at,
    {
        if matches_at(text, pattern, at) {
            return true;
        }
        at += 1;
    }
    let end: bool = matches_at(text, pattern, at);
    proof {
        if !end {
            assert forall|i: int| !#[trigger] stands_at(text@, pattern@, i) by {
                if i >= 0 && i > at {
                    assert(i + pattern@.len() > text@.len());
                }
            }
        }
    }
    end
}

} // verus!
