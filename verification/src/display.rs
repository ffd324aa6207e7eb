//! What the idle screen needs: a shift register that walks the pixels in
//! a scattered order, and the line that tells how many entries are stored.

use vstd::prelude::*;

verus! {

/// One step of a Galois shift register with feedback `m`.
pub open spec fn lfsr_step(x: u8, m: u8) -> u8 {
    if x & 1 == 1 {
        (x >> 1) ^ m
    } else {
        x >> 1
    }
}

/// A Galois linear-feedback shift register over eight bits.
pub struct Lfsr {
    pub x: u8,
    pub m: u8,
}

impl Lfsr {
    /// A register with feedback `modulus`. The state zero never moves on, so
    /// a start value of zero is replaced by one.
    pub fn new(init_val: u8, modulus: u8) -> (r: Lfsr)
        ensures
            r.m == modulus,
            r.x == if init_val == 0 {
                1u8
            } else {
                init_val
            },
    {
        if init_val == 0 {
            return Lfsr { x: 1, m: modulus };
        }
        Lfsr { x: init_val, m: modulus }
    }

    /// Moves the register on by one step and returns the new state.
    pub fn next(&mut self) -> (r: u8)
        ensures
            r == lfsr_step(old(self).x, old(self).m),
            final(self).x == r,
            final(self).m == old(self).m,
    {
        let lsb: u8 = self.x & 1;
        self.x = self.x >> 1;
        if lsb == 1 {
            self.x = self.x ^ self.m;
        }
        self.x
    }
}

/// The two characters that show `x` modulo 100 in decimal, right-aligned:
/// a space stands in place of a leading zero.
pub open spec fn two_digits(x: int) -> Seq<u8> {
    let t = x % 100;
    seq![
        if t >= 10 {
            (48 + t / 10) as u8
        } else {
            32u8
        },
        (48 + t % 10) as u8,
    ]
}

/// Conversion to a two-digit number.
pub fn int2dec(x: usize) -> (dec: [u8; 2])
    ensures
        dec@ == two_digits(x as int),
{
    let t: usize = x % 100;
    let mut dec = [32u8;2];
    dec[1] = 48 + (t % 10) as u8;
    if t >= 10 {
        dec[0] = 48 + (t / 10) as u8;
    }
    proof {
        assert(dec@ =~= two_digits(x as int));
    }
    dec
}

/// The text ` passwords` in ASCII.
pub open spec fn passwords_suffix() -> Seq<u8> {
    seq![32u8, 112, 97, 115, 115, 119, 111, 114, 100, 115]
}

/// The line of the information screen that tells how many entries are
/// stored: the count in two digits, then ` passwords`.
pub fn stored_line(count: usize) -> (line: [u8; 12])
    ensures
        line@ == two_digits(count as int) + passwords_suffix(),
{
    let dec = int2dec(count);
    let line: [u8; 12] = [dec[0], dec[1], 32, 112, 97, 115, 115, 119, 111, 114, 100, 115];
    proof {
        assert(line@ =~= two_digits(count as int) + passwords_suffix());
    }
    line
}

} // verus!
