//! Operating-system randomness and the wiping of secrets.

use crate::bytes::{be_value, read_u64};
use vstd::prelude::*;
use zeroize::Zeroize;

verus! {

/// Calls `getrandom::getrandom`, which fills the buffer from the operating
/// system and reports whether that worked. Trusted: the buffer keeps its
/// length, and an empty one is always filled, since the system is not asked
/// then. The bytes themselves depend on chance, and nothing is claimed of
/// them.
#[verifier::external_body]
fn fill_random(buffer: &mut Vec<u8>) -> (filled: bool)
    ensures
        final(buffer)@.len() == old(buffer)@.len(),
        old(buffer)@.len() == 0 ==> filled,
{
    getrandom::getrandom(buffer).is_ok()
}

/// Calls `Zeroize::zeroize` of the `zeroize` crate on a byte vector, which
/// overwrites the bytes and then clears the vector. Trusted: nothing is left
/// in it.
#[verifier::external_body]
fn zeroize_bytes(secret: &mut Vec<u8>)
    ensures
        final(secret)@.len() == 0,
{
    secret.zeroize();
}

/// Calls `Zeroize::zeroize` of the `zeroize` crate on a string, which
/// overwrites the bytes and then clears the string. Trusted: nothing is left
/// in it, and the call does not panic.
#[verifier::external_body]
fn zeroize_text(secret: &mut String)
    ensures
        final(secret)@.len() == 0,
    opens_invariants none
    no_unwind
{
    secret.zeroize();
}

/// Overwrites and empties a secret byte vector.
pub fn wipe_bytes(secret: &mut Vec<u8>)
    ensures
        final(secret)@ == Seq::<u8>::empty(),
{
    zeroize_bytes(secret);
    assert(secret@ =~= Seq::<u8>::empty());
}

/// Overwrites and empties a secret string.
pub fn wipe_text(secret: &mut String)
    ensures
        final(secret)@ == Seq::<char>::empty(),
    opens_invariants none
    no_unwind
{
    zeroize_text(secret);
    assert(secret@ =~= Seq::<char>::empty());
}

/// The buffer, if it was filled.
pub fn keep_filled(buffer: Vec<u8>, filled: bool) -> (bytes: Option<Vec<u8>>)
    ensures
        bytes == (if filled {
            Some(buffer)
        } else {
            None::<Vec<u8>>
        }),
{
    if filled {
        Some(buffer)
    } else {
        None
    }
}

/// Fresh random bytes, unless the operating system has none. No bytes are to
/// be had without it.
pub fn random_bytes(count: usize) -> (bytes: Option<Vec<u8>>)
    ensures
        bytes is Some ==> bytes->Some_0@.len() == count,
        count == 0 ==> bytes is Some,
{
    let mut buffer: Vec<u8> = Vec::new();
    let mut index: usize = 0;
    while index < count
        invariant
            index <= count,
            buffer@.len() == index,
        decreases count - index,
    {
        buffer.push(0);
        index += 1;
    }
    let filled: bool = fill_random(&mut buffer);
    keep_filled(buffer, filled)
}

/// The number that eight random bytes spell, unless it is zero.
pub fn nonzero_from_bytes(bytes: &[u8]) -> (number: Option<u64>)
    requires
        bytes@.len() == 8,
    ensures
        number is Some <==> be_value(bytes@) != 0,
        number is Some ==> number->Some_0 == be_value(bytes@) && number->Some_0 != 0,
{
    let value: u64 = read_u64(bytes, 0);
    proof {
        assert(bytes@.subrange(0, 8) =~= bytes@);
    }
    if value != 0 {
        Some(value)
    } else {
        None
    }
}

/// How often a number is drawn before it is given up.
pub const MAX_NONZERO_DRAWS: u32 = 4;

/// What a draw leads to.
#[derive(Debug, Clone, Copy, PartialEq, Eq, Structural)]
pub enum DrawStep {
    Done(Option<u64>),
    Again,
}

/// Judges one draw of a number that must not be zero. `draw` counts from zero,
/// and `bytes` is what the operating system gave for it.
pub fn judge_draw(draw: u32, bytes: &Option<Vec<u8>>) -> (step: DrawStep)
    requires
        draw < MAX_NONZERO_DRAWS,
        bytes is Some ==> bytes->Some_0@.len() == 8,
    ensures
        step == (match *bytes {
            None => DrawStep::Done(None),
            Some(bytes) => if be_value(bytes@) != 0 {
                DrawStep::Done(Some(be_value(bytes@) as u64))
            } else if draw + 1 < MAX_NONZERO_DRAWS {
                DrawStep::Again
            } else {
                DrawStep::Done(None)
            },
        }),
        step matches DrawStep::Done(Some(number)) ==> number == be_value(bytes->Some_0@),
{
    match bytes {
        None => DrawStep::Done(None),
        Some(bytes) => match nonzero_from_bytes(bytes) {
            Some(number) => DrawStep::Done(Some(number)),
            None => {
                if draw + 1 < MAX_NONZERO_DRAWS {
                    DrawStep::Again
                } else {
                    DrawStep::Done(None)
                }
            },
        },
    }
}

/// A random number that is not zero, in at most four draws. `None` when the
/// operating system has no randomness or every draw gave zero.
pub fn random_nonzero_u64() -> (number: Option<u64>)
    ensures
        number is Some ==> number->Some_0 != 0,
{
    let mut draw: u32 = 0;
    while draw < MAX_NONZERO_DRAWS
        invariant
            draw <= MAX_NONZERO_DRAWS,
        decreases MAX_NONZERO_DRAWS - draw,
    {
        let bytes: Option<Vec<u8>> = random_bytes(8);
        let step: DrawStep = judge_draw(draw, &bytes);
        match bytes {
            Some(mut drawn) => wipe_bytes(&mut drawn),
            None => {},
        }
        match step {
            DrawStep::Done(number) => return number,
            DrawStep::Again => {},
        }
        draw += 1;
    }
    None
}

} // verus!
