//! Random short-code generation.
//!
//! Codes are drawn uniformly, with replacement, from a fixed 62-symbol
//! alphanumeric alphabet.  The generator is a pure randomness source: the
//! store's uniqueness constraint, not the generator, arbitrates collisions.

use vstd::prelude::*;

use rand::Rng;

verus! {

/// The fixed alphabet of short codes: upper case, lower case, digits.
pub const CODE_ALPHABET: [char; 62] = [
    'A', 'B', 'C', 'D', 'E', 'F', 'G', 'H', 'I', 'J', 'K', 'L', 'M', 'N', 'O', 'P', 'Q', 'R',
    'S', 'T', 'U', 'V', 'W', 'X', 'Y', 'Z', 'a', 'b', 'c', 'd', 'e', 'f', 'g', 'h', 'i', 'j',
    'k', 'l', 'm', 'n', 'o', 'p', 'q', 'r', 's', 't', 'u', 'v', 'w', 'x', 'y', 'z', '0', '1',
    '2', '3', '4', '5', '6', '7', '8', '9',
];

/// Relies on rand's `Rng::gen_range` on `0..bound`: a random index strictly
/// below the bound; the range is non-empty, so the call cannot panic.
#[verifier::external_body]
fn random_index(bound: usize) -> (r: usize)
    requires
        0 < bound,
    ensures
        r < bound,
{
    rand::thread_rng().gen_range(0..bound)
}

/// Relies on `String::push`: appends exactly the given character.
#[verifier::external_body]
fn push_char(s: &mut String, c: char)
    ensures
        final(s)@ == old(s)@.push(c),
{
    s.push(c);
}

/// Produces a random code of exactly `length` characters, each drawn from
/// the fixed alphabet.
pub fn random_short_code(length: usize) -> (code: String)
    ensures
        code@.len() == length as int,
        forall|i: int| 0 <= i < code@.len() ==> CODE_ALPHABET@.contains(#[trigger] code@[i]),
{
    let mut code = String::new();
    let mut k: usize = 0;
    while k < length
        invariant
            k <= length,
            code@.len() == k as int,
            forall|i: int| 0 <= i < code@.len() ==> CODE_ALPHABET@.contains(#[trigger] code@[i]),
        decreases length - k,
    {
        let idx = random_index(62);
        let c = CODE_ALPHABET[idx];
        proof {
            assert(CODE_ALPHABET@.contains(CODE_ALPHABET@[idx as int]));
        }
        push_char(&mut code, c);
        k += 1;
    }
    code
}

} // verus!
