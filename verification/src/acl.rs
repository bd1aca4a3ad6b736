//! Who may read a private-key file.

use crate::chars::{contains, matches_at, occurs, stands_at, to_chars, trim, trimmed};
use crate::text::push_text;
use vstd::prelude::*;
use vstd::string::*;

verus! {

/// Some group or other permission bit is set: one of the six lowest.
pub open spec fn is_shared_mode(mode: u32) -> bool {
    mode % 64 != 0
}

/// Accepts the mode of a file that only its owner can use. The error carries
/// the nine permission bits.
pub fn check_private_key_mode(mode: u32) -> (result: Result<(), u32>)
    ensures
        result == (if is_shared_mode(mode) {
            Err::<(), u32>((mode % 512) as u32)
        } else {
            Ok::<(), u32>(())
        }),
{
    if mode % 64 != 0 {
        return Err(mode % 512);
    }
    Ok(())
}

/// A character of an access-control listing, in lower case and with
/// backslashes only.
pub open spec fn folded(c: char) -> char {
    if 'A' <= c <= 'Z' {
        ((c as u32 + 32) as u8) as char
    } else if c == '/' {
        '\\'
    } else {
        c
    }
}

/// A listing in lower case and with backslashes only.
pub open spec fn folded_text(text: Seq<char>) -> Seq<char> {
    text.map_values(|c: char| folded(c))
}

fn fold(chars: &[char]) -> (result: Vec<char>)
    ensures
        result@ == folded_text(chars@),
{
    let mut result: Vec<char> = Vec::new();
    let mut index: usize = 0;
    while index < chars.len()
        invariant
            index <= chars@.len(),
            result@.len() == index,
            forall|i: int| 0 <= i < index ==> result@[i] == folded(chars@[i]),
        decreases chars@.len() - index,
    {
        let c: char = chars[index];
        let code: u32 = c as u32;
        if 65 <= code && code <= 90 {
            result.push(((code + 32) as u8) as char);
        } else if c == '/' {
            result.push('\\');
        } else {
            result.push(c);
        }
        index += 1;
    }
    assert(result@ =~= folded_text(chars@));
    result
}

/// What follows the last `separator`, or everything.
pub open spec fn after_last(text: Seq<char>, separator: char) -> Seq<char>
    decreases text.len(),
{
    if text.len() == 0 || text.last() == separator {
        Seq::empty()
    } else {
        after_last(text.drop_last(), separator).push(text.last())
    }
}

fn start_after_last(chars: &[char], start: usize, end: usize, separator: char) -> (first: usize)
    requires
        start <= end <= chars@.len(),
    ensures
        start <= first <= end,
        chars@.subrange(first as int, end as int) == after_last(
            chars@.subrange(start as int, end as int),
            separator,
        ),
{
    let mut first: usize = end;
    let ghost whole = chars@.subrange(start as int, end as int);
    while first > start && chars[first - 1] != separator
        invariant
            start <= first <= end <= chars@.len(),
            whole == chars@.subrange(start as int, end as int),
            after_last(whole, separator) == after_last(
                chars@.subrange(start as int, first as int),
                separator,
            ) + chars@.subrange(first as int, end as int),
        ensures
            start <= first <= end,
            after_last(whole, separator) == chars@.subrange(first as int, end as int),
        decreases first - start,
    {
        proof {
            let front = chars@.subrange(start as int, first as int);
            assert(front.last() == chars@[first - 1]);
            assert(front.drop_last() =~= chars@.subrange(start as int, first - 1));
            let shorter = after_last(front.drop_last(), separator);
            assert(after_last(front, separator) == shorter.push(front.last()));
            assert(shorter.push(front.last()) + chars@.subrange(first as int, end as int)
                =~= shorter + chars@.subrange(first - 1, end as int));
        }
        first -= 1;
    }
    first
}

/// The account that an entry names: its last word, without the path or domain
/// before it.
pub open spec fn principal(left: Seq<char>) -> Seq<char> {
    trimmed(after_last(trimmed(after_last(left, '\\')), ' '))
}

/// The account stands for everybody.
pub open spec fn is_world_principal(name: Seq<char>) -> bool {
    ||| name == "users"@
    ||| name == "everyone"@
    ||| name == "s-1-1-0"@
    ||| name == "s-1-5-11"@
    ||| name == "s-1-5-32-545"@
}

/// A grant to everybody stands somewhere in the text.
pub open spec fn has_marker(text: Seq<char>) -> bool {
    ||| occurs(text, "everyone:("@)
    ||| occurs(text, "authenticated users:("@)
    ||| occurs(text, "builtin\\users:("@)
    ||| occurs(text, "nt authority\\authenticated users:("@)
    ||| occurs(text, "s-1-1-0:("@)
    ||| occurs(text, "s-1-5-11:("@)
    ||| occurs(text, "s-1-5-32-545:("@)
}

/// The first entry of the line that starts at `start` is the one whose rights
/// open at `at`, and it names everybody.
pub open spec fn line_grants(text: Seq<char>, start: int, at: int) -> bool {
    &&& 0 <= start <= at
    &&& stands_at(text, ":("@, at)
    &&& start == 0 || text[start - 1] == '\n'
    &&& forall|i: int| start <= i < at ==> #[trigger] text[i] != '\n'
    &&& forall|i: int| start <= i < at ==> !#[trigger] stands_at(text, ":("@, i)
    &&& is_world_principal(principal(text.subrange(start, at)))
}

/// The listing lets everybody in.
pub open spec fn grants_world_access(listing: Seq<char>) -> bool {
    let text = folded_text(listing);
    has_marker(text) || exists|start: int, at: int| #[trigger] line_grants(text, start, at)
}

fn names_world(chars: &[char], start: usize, end: usize) -> (result: bool)
    requires
        start <= end <= chars@.len(),
    ensures
        result == is_world_principal(principal(chars@.subrange(start as int, end as int))),
{
    let segment: usize = start_after_last(chars, start, end, '\\');
    let (first, last): (usize, usize) = trim(chars, segment, end);
    let word: usize = start_after_last(chars, first, last, ' ');
    let (from, to): (usize, usize) = trim(chars, word, last);
    is_exactly(chars, from, to, "users") || is_exactly(chars, from, to, "everyone") || is_exactly(
        chars,
        from,
        to,
        "s-1-1-0",
    ) || is_exactly(chars, from, to, "s-1-5-11") || is_exactly(chars, from, to, "s-1-5-32-545")
}

fn is_exactly(chars: &[char], from: usize, to: usize, name: &str) -> (result: bool)
    requires
        from <= to <= chars@.len(),
    ensures
        result == (chars@.subrange(from as int, to as int) == name@),
{
    let expected: Vec<char> = to_chars(name);
    if expected.len() != to - from {
        proof {
            assert(chars@.subrange(from as int, to as int).len() != name@.len());
        }
        return false;
    }
    matches_at(chars, &expected, from)
}

fn has_pattern(chars: &[char], pattern: &str) -> (result: bool)
    ensures
        result == occurs(chars@, pattern@),
{
    let pattern: Vec<char> = to_chars(pattern);
    contains(chars, &pattern)
}

fn some_line_grants(chars: &[char]) -> (result: bool)
    ensures
        result == exists|start: int, at: int| #[trigger] line_grants(chars@, start, at),
{
    let opening: Vec<char> = to_chars(":(");
    let ghost text = chars@;
    let mut start: usize = 0;
    let mut at: usize = 0;
    let mut opened: bool = false;
    while at < chars.len()
        invariant
            start <= at <= chars@.len(),
            text == chars@,
            opening@ == ":("@,
            start == 0 || text[start - 1] == '\n',
            forall|i: int| start <= i < at ==> #[trigger] text[i] != '\n',
            opened <==> exists|i: int| start <= i < at && #[trigger] stands_at(text, ":("@, i),
            forall|s: int, a: int| a < at ==> !#[trigger] line_grants(text, s, a),
        decreases chars@.len() - at,
    {
        let found: bool = matches_at(chars, &opening, at);
        if found && !opened {
            if names_world(chars, start, at) {
                proof {
                    assert(line_grants(text, start as int, at as int));
                }
                return true;
            }
        }
        proof {
            assert forall|s: int| !#[trigger] line_grants(text, s, at as int) by {
                if line_grants(text, s, at as int) {
                    if s < start {
                        assert(text[start - 1] == '\n');
                    } else if s > start {
                        assert(text[s - 1] == '\n');
                    } else if opened {
                        let earlier = choose|i: int|
                            start <= i < at && #[trigger] stands_at(text, ":("@, i);
                        assert(stands_at(text, ":("@, earlier));
                    }
                }
            }
        }
        if chars[at] == '\n' {
            start = at + 1;
            opened = false;
        } else if found {
            opened = true;
        }
        at += 1;
    }
    proof {
        reveal_strlit(":(");
        assert forall|s: int, a: int| !#[trigger] line_grants(text, s, a) by {
            if line_grants(text, s, a) {
                assert(a + ":("@.len() <= text.len());
            }
        }
    }
    false
}

/// Whether an access-control listing lets everybody, all users or all
/// authenticated users at a file.
pub fn windows_acl_grants_world_access(listing: &str) -> (result: bool)
    ensures
        result == grants_world_access(listing@),
{
    let chars: Vec<char> = to_chars(listing);
    let lower: Vec<char> = fold(&chars);
    if has_pattern(&lower, "everyone:(") || has_pattern(&lower, "authenticated users:(")
        || has_pattern(&lower, "builtin\\users:(") || has_pattern(
        &lower,
        "nt authority\\authenticated users:(",
    ) || has_pattern(&lower, "s-1-1-0:(") || has_pattern(&lower, "s-1-5-11:(") || has_pattern(
        &lower,
        "s-1-5-32-545:(",
    ) {
        return true;
    }
    some_line_grants(&lower)
}

/// The account to restrict a file to: what the system reports, or else what
/// the environment says.
pub open spec fn account(
    reported: Seq<char>,
    domain: Option<Seq<char>>,
    user: Option<Seq<char>>,
) -> Option<Seq<char>> {
    if reported.len() > 0 {
        Some(reported)
    } else {
        match user {
            None => None,
            Some(user) => if user.len() == 0 {
                None
            } else {
                match domain {
                    Some(domain) => if domain.len() == 0 {
                        Some(user)
                    } else {
                        Some(domain + "\\"@ + user)
                    },
                    None => Some(user),
                }
            },
        }
    }
}

/// The view of a text that may be missing.
pub open spec fn text_view(text: Option<String>) -> Option<Seq<char>> {
    match text {
        Some(text) => Some(text@),
        None => None,
    }
}

/// Chooses the account to restrict a file to. `reported` is empty when the
/// system reports nothing.
pub fn choose_account(reported: String, domain: Option<String>, user: Option<String>) -> (result:
    Option<String>)
    ensures
        text_view(result) == account(reported@, text_view(domain), text_view(user)),
{
    if reported.as_str().unicode_len() > 0 {
        return Some(reported);
    }
    let user: String = match user {
        Some(user) => user,
        None => return None,
    };
    if user.as_str().unicode_len() == 0 {
        return None;
    }
    match domain {
        Some(domain) => {
            if domain.as_str().unicode_len() == 0 {
                return Some(user);
            }
            let mut account: String = domain;
            push_text(&mut account, "\\");
            push_text(&mut account, user.as_str());
            Some(account)
        },
        None => Some(user),
    }
}

/// The account to restrict a file to, given what the system's account command
/// printed and what the environment says. White space around the printed name
/// does not count.
pub fn current_windows_account(
    printed: &str,
    domain: Option<String>,
    user: Option<String>,
) -> (result: Option<String>)
    ensures
        text_view(result) == account(trimmed(printed@), text_view(domain), text_view(user)),
{
    let chars: Vec<char> = to_chars(printed);
    let bounds: (usize, usize) = trim(&chars, 0, chars.len());
    let reported: String = String::from_str(printed.substring_char(bounds.0, bounds.1));
    proof {
        assert(chars@.subrange(0, chars@.len() as int) =~= chars@);
    }
    choose_account(reported, domain, user)
}

/// The right that leaves a file to one account.
pub fn owner_grant(account: &str) -> (grant: String)
    ensures
        grant@ == account@ + ":(R,W)"@,
{
    let mut grant: String = String::from_str(account);
    push_text(&mut grant, ":(R,W)");
    grant
}

} // verus!
