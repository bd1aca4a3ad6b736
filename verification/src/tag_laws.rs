//! What the authentication tag tells apart.

use crate::bytes::{be_digits, law_be_round_trip, lemma_bounds};
use crate::session::{auth_tag, mixed, mixed_rounds, stirred, tag_seed, turned};
use vstd::prelude::*;

verus! {

proof fn lemma_stirred(left: u8, right: u8, round: u8, one: u8, other: u8)
    requires
        stirred(one, left, right, round) == stirred(other, left, right, round),
    ensures
        one == other,
{
    let key = left ^ round;
    let a = ((one + key) % 256) as u8;
    let b = ((other + key) % 256) as u8;
    let x = turned(a);
    let y = turned(b);
    assert(x ^ right == y ^ right ==> x == y) by (bit_vector);
    assert((a << 3) | (a >> 5) == (b << 3) | (b >> 5) ==> a == b) by (bit_vector);
}

proof fn lemma_mixed_len(state: Seq<u8>, round: u8, count: int)
    requires
        count <= state.len(),
    ensures
        mixed(state, round, count).len() == state.len(),
    decreases count,
{
    if count > 0 {
        lemma_mixed_len(state, round, count - 1);
    }
}

proof fn lemma_mixed(one: Seq<u8>, other: Seq<u8>, round: u8, count: int)
    requires
        one.len() == 32,
        other.len() == 32,
        0 <= count <= 32,
        mixed(one, round, count) == mixed(other, round, count),
    ensures
        one == other,
    decreases count,
{
    if count > 0 {
        let at = count - 1;
        let a = mixed(one, round, at);
        let b = mixed(other, round, at);
        let after = mixed(one, round, count);
        lemma_mixed_len(one, round, at);
        lemma_mixed_len(other, round, at);
        assert forall|i: int| 0 <= i < 32 && i != at implies a[i] == b[i] by {
            assert(after[i] == a[i]);
            assert(mixed(other, round, count)[i] == b[i]);
        }
        let before = (at + 31) % 32;
        let behind = (at + 1) % 32;
        assert(before != at && behind != at);
        assert(after[at] == stirred(a[at], a[before], a[behind], round));
        assert(mixed(other, round, count)[at] == stirred(b[at], b[before], b[behind], round));
        lemma_stirred(a[before], a[behind], round, a[at], b[at]);
        assert(a =~= b);
        lemma_mixed(one, other, round, at);
    }
}

proof fn lemma_mixed_rounds_len(state: Seq<u8>, count: int)
    requires
        state.len() == 32,
    ensures
        mixed_rounds(state, count).len() == state.len(),
    decreases count,
{
    if count > 0 {
        lemma_mixed_rounds_len(state, count - 1);
        lemma_mixed_len(mixed_rounds(state, count - 1), (count - 1) as u8, 32);
    }
}

proof fn lemma_mixed_rounds(one: Seq<u8>, other: Seq<u8>, count: int)
    requires
        one.len() == 32,
        other.len() == 32,
        mixed_rounds(one, count) == mixed_rounds(other, count),
    ensures
        one == other,
    decreases count,
{
    if count > 0 {
        let a = mixed_rounds(one, count - 1);
        let b = mixed_rounds(other, count - 1);
        lemma_mixed_rounds_len(one, count - 1);
        lemma_mixed_rounds_len(other, count - 1);
        lemma_mixed(a, b, (count - 1) as u8, 32);
        lemma_mixed_rounds(one, other, count - 1);
    }
}

/// Mixing loses nothing: equal tags come of equal states before mixing.
proof fn lemma_seeds_agree(
    one: (Seq<u8>, u64, u32, Seq<u8>, Seq<u8>),
    other: (Seq<u8>, u64, u32, Seq<u8>, Seq<u8>),
)
    requires
        auth_tag(one.0, one.1, one.2, one.3, one.4) == auth_tag(
            other.0,
            other.1,
            other.2,
            other.3,
            other.4,
        ),
    ensures
        tag_seed(one.0, one.1, one.2, one.3, one.4) == tag_seed(
            other.0,
            other.1,
            other.2,
            other.3,
            other.4,
        ),
{
    lemma_mixed_rounds(
        tag_seed(one.0, one.1, one.2, one.3, one.4),
        tag_seed(other.0, other.1, other.2, other.3, other.4),
        4,
    );
}

/// Two secrets have different tags for the same session.
pub proof fn law_tag_tells_secrets_apart(
    secret: Seq<u8>,
    other: Seq<u8>,
    session_id: u64,
    epoch: u32,
    client_nonce: Seq<u8>,
    server_nonce: Seq<u8>,
)
    requires
        secret.len() == 32,
        other.len() == 32,
    ensures
        auth_tag(secret, session_id, epoch, client_nonce, server_nonce) == auth_tag(
            other,
            session_id,
            epoch,
            client_nonce,
            server_nonce,
        ) <==> secret == other,
{
    if auth_tag(secret, session_id, epoch, client_nonce, server_nonce) == auth_tag(
        other,
        session_id,
        epoch,
        client_nonce,
        server_nonce,
    ) {
        lemma_seeds_agree(
            (secret, session_id, epoch, client_nonce, server_nonce),
            (other, session_id, epoch, client_nonce, server_nonce),
        );
        let seed = tag_seed(secret, session_id, epoch, client_nonce, server_nonce);
        let twin = tag_seed(other, session_id, epoch, client_nonce, server_nonce);
        assert forall|i: int| 0 <= i < 32 implies secret[i] == other[i] by {
            let a = secret[i];
            let b = other[i];
            let known: u8 = if i < 8 {
                be_digits(session_id as int, 8)[i]
            } else if i < 16 {
                be_digits(epoch as int, 4)[(i - 8) % 4]
            } else {
                client_nonce[i - 16] ^ server_nonce[i - 16]
            };
            assert(seed[i] == (a ^ 0x5c) ^ known);
            assert(twin[i] == (b ^ 0x5c) ^ known);
            assert((a ^ 0x5c) ^ known == (b ^ 0x5c) ^ known ==> a == b) by (bit_vector);
        }
        assert(secret =~= other);
    }
}

/// With one secret, two sessions, two epochs, two client nonces or two server
/// nonces have different tags, everything else being equal.
pub proof fn law_tag_tells_sessions_apart(
    secret: Seq<u8>,
    session_id: u64,
    epoch: u32,
    client_nonce: Seq<u8>,
    server_nonce: Seq<u8>,
    other_session: u64,
    other_epoch: u32,
    other_client: Seq<u8>,
    other_server: Seq<u8>,
)
    requires
        client_nonce.len() == 16,
        server_nonce.len() == 16,
        other_client.len() == 16,
        other_server.len() == 16,
    ensures
        ({
            let tag = auth_tag(secret, session_id, epoch, client_nonce, server_nonce);
            &&& tag == auth_tag(secret, other_session, epoch, client_nonce, server_nonce)
                ==> session_id == other_session
            &&& tag == auth_tag(secret, session_id, other_epoch, client_nonce, server_nonce)
                ==> epoch == other_epoch
            &&& tag == auth_tag(secret, session_id, epoch, other_client, server_nonce)
                ==> client_nonce == other_client
            &&& tag == auth_tag(secret, session_id, epoch, client_nonce, other_server)
                ==> server_nonce == other_server
        }),
{
    lemma_bounds();
    let tag = auth_tag(secret, session_id, epoch, client_nonce, server_nonce);
    let seed = tag_seed(secret, session_id, epoch, client_nonce, server_nonce);
    let ours = (secret, session_id, epoch, client_nonce, server_nonce);
    law_be_round_trip(session_id as int, 8);
    law_be_round_trip(other_session as int, 8);
    law_be_round_trip(epoch as int, 4);
    law_be_round_trip(other_epoch as int, 4);
    if tag == auth_tag(secret, other_session, epoch, client_nonce, server_nonce) {
        lemma_seeds_agree(ours, (secret, other_session, epoch, client_nonce, server_nonce));
        let twin = tag_seed(secret, other_session, epoch, client_nonce, server_nonce);
        let a = be_digits(session_id as int, 8);
        let b = be_digits(other_session as int, 8);
        assert forall|i: int| 0 <= i < 8 implies a[i] == b[i] by {
            assert(seed[i] == twin[i]);
            lemma_unmasked(secret[i] ^ 0x5c, a[i], b[i]);
        }
        assert(a =~= b);
    }
    if tag == auth_tag(secret, session_id, other_epoch, client_nonce, server_nonce) {
        lemma_seeds_agree(ours, (secret, session_id, other_epoch, client_nonce, server_nonce));
        let twin = tag_seed(secret, session_id, other_epoch, client_nonce, server_nonce);
        let a = be_digits(epoch as int, 4);
        let b = be_digits(other_epoch as int, 4);
        assert forall|i: int| 0 <= i < 4 implies a[i] == b[i] by {
            assert(seed[i + 8] == twin[i + 8]);
            lemma_unmasked(secret[i + 8] ^ 0x5c, a[i], b[i]);
        }
        assert(a =~= b);
    }
    if tag == auth_tag(secret, session_id, epoch, other_client, server_nonce) {
        lemma_seeds_agree(ours, (secret, session_id, epoch, other_client, server_nonce));
        let twin = tag_seed(secret, session_id, epoch, other_client, server_nonce);
        assert forall|i: int| 0 <= i < 16 implies client_nonce[i] == other_client[i] by {
            assert(seed[i + 16] == twin[i + 16]);
            let (a, b, c) = (client_nonce[i], other_client[i], server_nonce[i]);
            lemma_unmasked(secret[i + 16] ^ 0x5c, a ^ c, b ^ c);
            assert(a ^ c == b ^ c ==> a == b) by (bit_vector);
        }
        assert(client_nonce =~= other_client);
    }
    if tag == auth_tag(secret, session_id, epoch, client_nonce, other_server) {
        lemma_seeds_agree(ours, (secret, session_id, epoch, client_nonce, other_server));
        let twin = tag_seed(secret, session_id, epoch, client_nonce, other_server);
        assert forall|i: int| 0 <= i < 16 implies server_nonce[i] == other_server[i] by {
            assert(seed[i + 16] == twin[i + 16]);
            let (a, b, c) = (server_nonce[i], other_server[i], client_nonce[i]);
            lemma_unmasked(secret[i + 16] ^ 0x5c, c ^ a, c ^ b);
            assert(c ^ a == c ^ b ==> a == b) by (bit_vector);
        }
        assert(server_nonce =~= other_server);
    }
}

proof fn lemma_unmasked(mask: u8, one: u8, other: u8)
    requires
        mask ^ one == mask ^ other,
    ensures
        one == other,
{
    assert(mask ^ one == mask ^ other ==> one == other) by (bit_vector);
}

} // verus!
