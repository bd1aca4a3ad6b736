//! Which names, keys and files are accepted, and how numbers are written.

use crate::acl::{
    account, after_last, folded, folded_text, grants_world_access, has_marker, is_shared_mode,
    is_world_principal, line_grants,
};
use crate::chars::{occurs, stands_at, trimmed, trimmed_end, trimmed_start, unicode_alphanumeric,
    unicode_whitespace,
};
use crate::entropy::MAX_NONZERO_DRAWS;
use crate::identity::{
    facts_of, first_bad_char, is_name_char, name_fault, peer_fault, size_fault, DisplayNameError,
    FileKind, IdentityError, MAX_CERTIFICATE_DER_BYTES, MAX_DISPLAY_NAME_CHARS,
    MAX_PRIVATE_KEY_DER_BYTES, MAX_QUIC_BIDIRECTIONAL_STREAMS, MAX_QUIC_UNIDIRECTIONAL_STREAMS,
    PEER_IDENTITY_ERROR_CODE, QUIC_DATAGRAM_RECEIVE_BUFFER_BYTES, QUIC_DATAGRAM_SEND_BUFFER_BYTES,
    QUIC_RECEIVE_WINDOW_BYTES, QUIC_SEND_WINDOW_BYTES, QUIC_STREAM_RECEIVE_WINDOW_BYTES,
    TLS_SERVER_NAME,
};
use crate::quic::QuicTransportError;
use crate::text::{decimal, digit, octal, truth};
use vstd::prelude::*;

verus! {

/// What an identity and its connections may take at most.
pub proof fn law_identity_limits()
    ensures
        TLS_SERVER_NAME@ == "latencydesk.local"@,
        MAX_DISPLAY_NAME_CHARS == 64,
        MAX_CERTIFICATE_DER_BYTES == 65_536,
        MAX_PRIVATE_KEY_DER_BYTES == 65_536,
        MAX_QUIC_BIDIRECTIONAL_STREAMS == 8,
        MAX_QUIC_UNIDIRECTIONAL_STREAMS == 8,
        QUIC_STREAM_RECEIVE_WINDOW_BYTES == 2_097_152,
        QUIC_RECEIVE_WINDOW_BYTES == 8_388_608,
        QUIC_SEND_WINDOW_BYTES == 8_388_608,
        QUIC_DATAGRAM_RECEIVE_BUFFER_BYTES == 2_097_152,
        QUIC_DATAGRAM_SEND_BUFFER_BYTES == 2_097_152,
        PEER_IDENTITY_ERROR_CODE == 257,
        MAX_NONZERO_DRAWS == 4,
{
}

// ---------------------------------------------------------------------------
// Names
// ---------------------------------------------------------------------------
/// The character that is reported is the first one that a name may not have.
pub proof fn law_first_bad_character_is_told(name: Seq<char>)
    requires
        name.len() <= usize::MAX,
    ensures
        first_bad_char(name) is None <==> forall|i: int|
            0 <= i < name.len() ==> is_name_char(#[trigger] name[i]),
        first_bad_char(name) matches Some(index) ==> {
            &&& index < name.len()
            &&& !is_name_char(name[index as int])
            &&& forall|i: int| 0 <= i < index ==> is_name_char(#[trigger] name[i])
        },
    decreases name.len(),
{
    if name.len() > 0 {
        let front = name.drop_last();
        law_first_bad_character_is_told(front);
        assert forall|i: int| 0 <= i < front.len() implies front[i] == #[trigger] name[i] by {}
        if first_bad_char(front) is Some {
            let index = first_bad_char(front)->Some_0 as int;
            assert(front[index] == name[index]);
            assert forall|i: int| 0 <= i < index implies is_name_char(#[trigger] name[i]) by {
                assert(front[i] == name[i]);
            }
        } else {
            assert forall|i: int| 0 <= i < front.len() implies is_name_char(
                #[trigger] name[i],
            ) by {
                assert(front[i] == name[i]);
            }
        }
    }
}

/// A name is accepted exactly if it has 1 to 64 letters, digits, blanks,
/// hyphens, underscores and dots, and neither starts nor ends with a blank.
pub proof fn law_plain_names_are_accepted(name: Seq<char>, c: char)
    requires
        name.len() <= usize::MAX,
    ensures
        is_name_char(c) <==> (unicode_alphanumeric(c) || c == ' ' || c == '-' || c == '_' || c
            == '.'),
        name_fault(facts_of(name)) is None <==> (1 <= name.len() <= 64 && !unicode_whitespace(
            name[0],
        ) && !unicode_whitespace(name.last()) && forall|i: int|
            0 <= i < name.len() ==> is_name_char(#[trigger] name[i])),
        name.len() == 0 ==> name_fault(facts_of(name)) == Some(DisplayNameError::Empty),
        name.len() > 0 && (unicode_whitespace(name[0]) || unicode_whitespace(name.last()))
            ==> name_fault(facts_of(name)) == Some(DisplayNameError::SurroundingWhitespace),
        name.len() > 64 && !unicode_whitespace(name[0]) && !unicode_whitespace(name.last())
            ==> name_fault(facts_of(name)) == Some(
            DisplayNameError::TooLong { actual: name.len() as usize },
        ),
        1 <= name.len() <= 64 && !unicode_whitespace(name[0]) && !unicode_whitespace(name.last())
            && first_bad_char(name) is Some ==> name_fault(facts_of(name)) == Some(
            DisplayNameError::InvalidCharacter { index: first_bad_char(name)->Some_0 },
        ),
{
    law_first_bad_character_is_told(name);
}

/// A certificate and a key have at most 65536 bytes each; the certificate is
/// looked at first.
pub proof fn law_large_identities_are_refused(certificate_len: nat, private_key_len: nat)
    ensures
        size_fault(certificate_len as int, private_key_len as int) is None <==> (certificate_len
            <= 65_536 && private_key_len <= 65_536),
        certificate_len > 65_536 ==> size_fault(certificate_len as int, private_key_len as int)
            == Some(
            IdentityError::FileTooLarge { kind: FileKind::Certificate, max_bytes: 65_536 },
        ),
        certificate_len <= 65_536 && private_key_len > 65_536 ==> size_fault(
            certificate_len as int,
            private_key_len as int,
        ) == Some(IdentityError::FileTooLarge { kind: FileKind::PrivateKey, max_bytes: 65_536 }),
{
}

/// A peer is the expected one exactly if its first certificate is.
pub proof fn law_first_certificate_names_the_peer(
    chain: Seq<Seq<u8>>,
    expected: Seq<u8>,
    error: QuicTransportError,
)
    ensures
        peer_fault(Ok(chain), expected) is None <==> (chain.len() > 0 && chain[0] == expected),
        chain.len() == 0 ==> peer_fault(Ok(chain), expected) == Some(
            IdentityError::MissingPeerCertificate,
        ),
        chain.len() > 0 && chain[0] != expected ==> peer_fault(Ok(chain), expected) == Some(
            IdentityError::PeerCertificateMismatch,
        ),
        peer_fault(Err(error), expected) == Some(IdentityError::QuicTransport(error)),
{
}

// ---------------------------------------------------------------------------
// Who may read a key
// ---------------------------------------------------------------------------
/// A file is shared exactly if its mode grants anything to the group or to
/// others.
pub proof fn law_shared_modes_grant_to_others(mode: u32)
    ensures
        is_shared_mode(mode) <==> mode & 63 != 0,
{
    assert(mode & 63 == mode % 64) by (bit_vector);
}

/// Upper and lower case, and the two kinds of slash, are one.
pub proof fn law_spelling_does_not_matter(c: char)
    ensures
        'A' <= c <= 'Z' ==> folded(c) as u32 == c as u32 + 32,
        c == '/' ==> folded(c) == '\\',
        !('A' <= c <= 'Z') && c != '/' ==> folded(c) == c,
        folded(folded(c)) == folded(c),
{
}

/// What is left of a text after its last separator ends it and holds none.
pub proof fn law_last_part_holds_no_separator(text: Seq<char>, separator: char)
    ensures
        ({
            let part = after_last(text, separator);
            &&& part.len() <= text.len()
            &&& part == text.skip(text.len() - part.len())
            &&& !part.contains(separator)
            &&& part.len() < text.len() ==> text[text.len() - part.len() - 1] == separator
        }),
    decreases text.len(),
{
    if text.len() > 0 && text.last() != separator {
        law_last_part_holds_no_separator(text.drop_last(), separator);
        let front = text.drop_last();
        let part = after_last(front, separator);
        let whole = after_last(text, separator);
        assert(whole =~= text.skip(text.len() - whole.len()));
        assert(!whole.contains(separator)) by {
            if whole.contains(separator) {
                let i = choose|i: int| 0 <= i < whole.len() && whole[i] == separator;
                if i < part.len() {
                    assert(part[i] == separator);
                    assert(part.contains(separator));
                }
            }
        }
        if whole.len() < text.len() {
            assert(front[front.len() - part.len() - 1] == text[text.len() - whole.len() - 1]);
        }
    } else {
        assert(after_last(text, separator) =~= text.skip(text.len() as int));
    }
}

/// What is left of a text without the blanks around it.
pub proof fn law_trimmed_text_has_no_blank_ends(text: Seq<char>)
    ensures
        ({
            let core = trimmed(text);
            &&& core.len() > 0 ==> !unicode_whitespace(core[0]) && !unicode_whitespace(core.last())
            &&& text.len() > 0 && !unicode_whitespace(text[0]) && !unicode_whitespace(text.last())
                ==> core == text
            &&& exists|from: int, to: int|
                0 <= from <= to <= text.len() && core == #[trigger] text.subrange(from, to)
        }),
{
    lemma_trimmed_start(text);
    let start = trimmed_start(text);
    lemma_trimmed_end(start);
    let end = trimmed_end(start);
    let from = text.len() - start.len();
    assert(end =~= text.subrange(from, from + end.len()));
    if text.len() > 0 && !unicode_whitespace(text[0]) {
        assert(start == text);
    }
    if end.len() > 0 {
        assert(end[0] == start[0]);
    }
}

proof fn lemma_trimmed_start(text: Seq<char>)
    ensures
        trimmed_start(text).len() <= text.len(),
        trimmed_start(text) == text.skip(text.len() - trimmed_start(text).len()),
        trimmed_start(text).len() > 0 ==> !unicode_whitespace(trimmed_start(text)[0]),
    decreases text.len(),
{
    if text.len() > 0 && unicode_whitespace(text[0]) {
        lemma_trimmed_start(text.skip(1));
        assert(trimmed_start(text) =~= text.skip(text.len() - trimmed_start(text).len()));
    } else {
        assert(text.skip(0) =~= text);
    }
}

proof fn lemma_trimmed_end(text: Seq<char>)
    ensures
        trimmed_end(text).len() <= text.len(),
        trimmed_end(text) == text.take(trimmed_end(text).len() as int),
        trimmed_end(text).len() > 0 ==> !unicode_whitespace(trimmed_end(text).last()),
    decreases text.len(),
{
    if text.len() > 0 && unicode_whitespace(text.last()) {
        lemma_trimmed_end(text.drop_last());
        assert(trimmed_end(text) =~= text.take(trimmed_end(text).len() as int));
    } else {
        assert(text.take(text.len() as int) =~= text);
    }
}

/// Everyone, all users, and all authenticated users are the world, by name or
/// by number.
pub proof fn law_world_has_these_names(name: Seq<char>)
    ensures
        is_world_principal("everyone"@),
        is_world_principal("users"@),
        is_world_principal("s-1-1-0"@),
        is_world_principal("s-1-5-11"@),
        is_world_principal("s-1-5-32-545"@),
        is_world_principal(name) ==> {
            ||| name == "everyone"@
            ||| name == "users"@
            ||| name == "s-1-1-0"@
            ||| name == "s-1-5-11"@
            ||| name == "s-1-5-32-545"@
        },
{
}

/// A listing grants to the world where one of the well-known grants occurs in
/// it, in any spelling, or a line grants to a name of the world.
pub proof fn law_well_known_grants_are_found(listing: Seq<char>)
    ensures
        ({
            let text = folded_text(listing);
            &&& occurs(text, "everyone:("@) ==> grants_world_access(listing)
            &&& occurs(text, "authenticated users:("@) ==> grants_world_access(listing)
            &&& occurs(text, "builtin\\users:("@) ==> grants_world_access(listing)
            &&& occurs(text, "s-1-1-0:("@) ==> grants_world_access(listing)
            &&& occurs(text, "s-1-5-11:("@) ==> grants_world_access(listing)
            &&& occurs(text, "s-1-5-32-545:("@) ==> grants_world_access(listing)
            &&& forall|i: int| 0 <= i < listing.len() ==> #[trigger] text[i] == folded(listing[i])
            &&& text.len() == listing.len()
        }),
{
}

/// A line grants to the world if the name before its first grant is one of the
/// world, after its last backslash and blank.
pub proof fn law_lines_grant_to_their_principal(listing: Seq<char>, start: int, at: int)
    requires
        ({
            let text = folded_text(listing);
            let left = text.subrange(start, at);
            &&& 0 <= start <= at
            &&& at + 2 <= text.len()
            &&& text[at] == ':' && text[at + 1] == '('
            &&& start == 0 || text[start - 1] == '\n'
            &&& forall|i: int|
                start <= i < at ==> #[trigger] text[i] != '\n' && !(text[i] == ':' && text[i + 1]
                    == '(')
            &&& is_world_principal(trimmed(after_last(trimmed(after_last(left, '\\')), ' ')))
        }),
    ensures
        grants_world_access(listing),
{
    let text = folded_text(listing);
    reveal_strlit(":(");
    let grant = ":("@;
    assert(text.subrange(at, at + 2) =~= grant);
    assert(stands_at(text, grant, at));
    assert forall|i: int| start <= i < at implies !#[trigger] stands_at(text, grant, i) by {
        if stands_at(text, grant, i) {
            assert(text.subrange(i, i + 2)[0] == text[i]);
            assert(text.subrange(i, i + 2)[1] == text[i + 1]);
            assert(text[i] == ':' && text[i + 1] == '(');
        }
    }
    assert(line_grants(text, start, at));
}

/// A listing without any grant grants nothing.
pub proof fn law_listings_without_grants_are_private(listing: Seq<char>)
    requires
        forall|i: int|
            0 <= i < listing.len() - 1 ==> !(#[trigger] listing[i] == ':' && listing[i + 1] == '('),
    ensures
        !grants_world_access(listing),
{
    let text = folded_text(listing);
    assert forall|i: int| 0 <= i < text.len() - 1 implies !(#[trigger] text[i] == ':' && text[i + 1]
        == '(') by {
        assert(text[i] == folded(listing[i]));
        assert(text[i + 1] == folded(listing[i + 1]));
        assert(!(listing[i] == ':' && listing[i + 1] == '('));
    }
    reveal_strlit(":(");
    assert forall|start: int, at: int| !#[trigger] line_grants(text, start, at) by {
        if line_grants(text, start, at) {
            assert(text.subrange(at, at + 2)[0] == text[at]);
            assert(text.subrange(at, at + 2)[1] == text[at + 1]);
        }
    }
    reveal_strlit("everyone:(");
    lemma_no_marker(text, "everyone:("@);
    reveal_strlit("authenticated users:(");
    lemma_no_marker(text, "authenticated users:("@);
    reveal_strlit("builtin\\users:(");
    lemma_no_marker(text, "builtin\\users:("@);
    reveal_strlit("nt authority\\authenticated users:(");
    lemma_no_marker(text, "nt authority\\authenticated users:("@);
    reveal_strlit("s-1-1-0:(");
    lemma_no_marker(text, "s-1-1-0:("@);
    reveal_strlit("s-1-5-11:(");
    lemma_no_marker(text, "s-1-5-11:("@);
    reveal_strlit("s-1-5-32-545:(");
    lemma_no_marker(text, "s-1-5-32-545:("@);
    assert(!has_marker(text));
}

proof fn lemma_no_marker(text: Seq<char>, marker: Seq<char>)
    requires
        forall|i: int|
            0 <= i < text.len() - 1 ==> !(#[trigger] text[i] == ':' && text[i + 1] == '('),
        marker.len() >= 2,
        marker[marker.len() - 2] == ':',
        marker[marker.len() - 1] == '(',
    ensures
        !occurs(text, marker),
{
    assert forall|at: int| !#[trigger] stands_at(text, marker, at) by {
        if stands_at(text, marker, at) {
            let part = text.subrange(at, at + marker.len());
            let colon = marker.len() - 2;
            assert(part[colon] == text[at + colon]);
            assert(part[colon + 1] == text[at + colon + 1]);
        }
    }
}

/// The account is what the system reports, or else the user of the
/// environment, under its domain where it has one.
pub proof fn law_account_is_reported_or_named(
    reported: Seq<char>,
    domain: Seq<char>,
    user: Seq<char>,
    any_domain: Option<Seq<char>>,
    any_user: Option<Seq<char>>,
)
    ensures
        reported.len() > 0 ==> account(reported, any_domain, any_user) == Some(reported),
        reported.len() == 0 ==> account(reported, any_domain, None) is None,
        reported.len() == 0 && user.len() == 0 ==> account(reported, any_domain, Some(user))
            is None,
        reported.len() == 0 && user.len() > 0 ==> account(reported, None, Some(user)) == Some(user),
        reported.len() == 0 && user.len() > 0 && domain.len() == 0 ==> account(
            reported,
            Some(domain),
            Some(user),
        ) == Some(user),
        reported.len() == 0 && user.len() > 0 && domain.len() > 0 ==> account(
            reported,
            Some(domain),
            Some(user),
        ) == Some(domain + seq!['\\'] + user),
{
    reveal_strlit("\\");
    assert("\\"@ =~= seq!['\\']);
}

// ---------------------------------------------------------------------------
// Numbers
// ---------------------------------------------------------------------------
/// The number that a row of digits denotes.
pub open spec fn denoted(digits: Seq<char>, base: nat) -> int
    decreases digits.len(),
{
    if digits.len() == 0 {
        0
    } else {
        base * denoted(digits.drop_last(), base) + (digits.last() as int - '0' as int)
    }
}

/// A decimal number reads back as itself, has digits only, and starts with a
/// zero only where it is zero.
pub proof fn law_decimal_reads_back(value: nat)
    ensures
        denoted(decimal(value), 10) == value,
        decimal(value).len() >= 1,
        forall|i: int| 0 <= i < decimal(value).len() ==> '0' <= #[trigger] decimal(value)[i] <= '9',
        decimal(value)[0] == '0' <==> value == 0,
    decreases value,
{
    if value >= 10 {
        law_decimal_reads_back(value / 10);
        assert(decimal(value).drop_last() =~= decimal(value / 10));
        assert(decimal(value)[0] == decimal(value / 10)[0]);
    } else {
        assert(decimal(value).drop_last() =~= Seq::<char>::empty());
        assert(denoted(Seq::<char>::empty(), 10) == 0);
        assert(digit(value) as int == '0' as int + value);
    }
}

/// An octal number reads back as itself, has octal digits only, and as many as
/// were asked for at least.
pub proof fn law_octal_reads_back(value: nat, width: nat)
    ensures
        denoted(octal(value, width), 8) == value,
        octal(value, width).len() >= width,
        octal(value, width).len() >= 1,
        octal(value, width).len() == 1 <==> value < 8 && width <= 1,
        forall|i: int|
            0 <= i < octal(value, width).len() ==> '0' <= #[trigger] octal(value, width)[i] <= '7',
        octal(value, width).len() > width && octal(value, width).len() > 1 ==> octal(
            value,
            width,
        )[0] != '0',
    decreases value + width,
{
    if value < 8 && width <= 1 {
        assert(octal(value, width).drop_last() =~= Seq::<char>::empty());
        assert(denoted(Seq::<char>::empty(), 8) == 0);
    } else {
        let rest: nat = if width > 0 {
            (width - 1) as nat
        } else {
            0
        };
        law_octal_reads_back(value / 8, rest);
        assert(octal(value, width).drop_last() =~= octal(value / 8, rest));
        assert(octal(value, width)[0] == octal(value / 8, rest)[0]);
        if octal(value, width).len() > width && octal(value / 8, rest).len() == 1 {
            assert(octal(value / 8, rest) == seq![digit(value / 8)]);
            assert(digit(value / 8) as int == '0' as int + value / 8);
        }
    }
}

/// Truth is written as true and false.
pub proof fn law_truth_is_written_out()
    ensures
        truth(true) == "true"@,
        truth(false) == "false"@,
{
}

} // verus!
