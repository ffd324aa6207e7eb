//! Passwords made on the device from random draws.

use vstd::prelude::*;

verus! {

/// Number of characters a generated password is drawn from.
pub const ALPHABET_LEN: u32 = 62;

/// The character at `index` of the alphabet: the lower-case letters, the
/// upper-case letters, the digits.
pub open spec fn pass_char(index: int) -> u8 {
    if index < 26 {
        (97 + index) as u8
    } else if index < 52 {
        (65 + index - 26) as u8
    } else {
        (48 + index - 52) as u8
    }
}

/// Every draw is an index into the alphabet.
pub open spec fn draws_in_range(draws: Seq<u32>) -> bool {
    forall|i: int| 0 <= i < draws.len() ==> (#[trigger] draws[i]) < ALPHABET_LEN
}

/// The password that a sequence of draws gives: one character for each.
pub open spec fn password_of(draws: Seq<u32>) -> Seq<u8> {
    Seq::new(draws.len(), |i: int| pass_char(draws[i] as int))
}

/// The character that one draw picks.
pub fn pick_char(index: u32) -> (c: u8)
    requires
        index < ALPHABET_LEN,
    ensures
        c == pass_char(index as int),
        c != 0,
{
    if index < 26 {
        97 + index as u8
    } else if index < 52 {
        65 + (index - 26) as u8
    } else {
        48 + (index - 52) as u8
    }
}

/// Generates a random password: writes into the first `size` places of
/// `dest`, or into all of it where it is shorter, the characters that the
/// draws pick, each draw made uniformly over the alphabet by the caller.
/// The rest of `dest` is kept. No terminal zero is written.
pub fn generate_random_password(dest: &mut [u8], size: usize, draws: &[u32])
    requires
        draws@.len() >= size || draws@.len() >= old(dest)@.len(),
        draws_in_range(draws@),
    ensures
        final(dest)@.len() == old(dest)@.len(),
        forall|j: int|
            0 <= j < final(dest)@.len() ==> final(dest)@[j] == if j < size {
                pass_char(draws@[j] as int)
            } else {
                old(dest)@[j]
            },
{
    let n = if size < dest.len() {
        size
    } else {
        dest.len()
    };
    let mut i: usize = 0;
    while i < n
        invariant
            i <= n <= draws@.len(),
            n <= size,
            n <= dest@.len(),
            n == size || n == dest@.len(),
            dest@.len() == old(dest)@.len(),
            draws_in_range(draws@),
            forall|j: int| 0 <= j < i ==> dest@[j] == pass_char(draws@[j] as int),
            forall|j: int| i <= j < dest@.len() ==> dest@[j] == old(dest)@[j],
        decreases n - i,
    {
        dest[i] = pick_char(draws[i]);
        i += 1;
    }
}

} // verus!
