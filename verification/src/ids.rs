//! Entity identifiers.
//!
//! Every display, playlist and schedule is keyed by a UUID.  The catalog
//! logic only ever compares and copies these keys, so the library holds a
//! UUID as its 128-bit value; rendering to the canonical
//! 8-4-4-4-12 lowercase hex form is done here as well.

use vstd::prelude::*;

verus! {

/// A UUID as its 128-bit value.
#[derive(PartialEq, Eq, Structural, Clone, Copy, Hash, Debug)]
pub struct UuidVal {
    pub bits: u128,
}

impl UuidVal {
    pub fn from_u128(bits: u128) -> (r: UuidVal)
        ensures
            r.bits == bits,
    {
        UuidVal { bits }
    }

    pub fn as_u128(&self) -> (r: u128)
        ensures
            r == self.bits,
    {
        self.bits
    }
}

/// The sixteen lowercase hex digits, by value.
pub open spec fn spec_hex_digit(n: int) -> char {
    if n == 0 {
        '0'
    } else if n == 1 {
        '1'
    } else if n == 2 {
        '2'
    } else if n == 3 {
        '3'
    } else if n == 4 {
        '4'
    } else if n == 5 {
        '5'
    } else if n == 6 {
        '6'
    } else if n == 7 {
        '7'
    } else if n == 8 {
        '8'
    } else if n == 9 {
        '9'
    } else if n == 10 {
        'a'
    } else if n == 11 {
        'b'
    } else if n == 12 {
        'c'
    } else if n == 13 {
        'd'
    } else if n == 14 {
        'e'
    } else {
        'f'
    }
}

/// Nibble `k` of a UUID value, counting from the most significant.
pub open spec fn spec_uuid_nibble(bits: u128, k: int) -> u128 {
    (bits >> ((4 * (31 - k)) as u128)) & 0xf
}

/// The canonical textual form of a UUID: 32 lowercase hex digits in
/// 8-4-4-4-12 groups separated by dashes.
pub open spec fn spec_uuid_chars(bits: u128) -> Seq<char> {
    Seq::new(36, |i: int| {
        if i == 8 || i == 13 || i == 18 || i == 23 {
            '-'
        } else {
            spec_hex_digit(spec_uuid_nibble(bits, nibble_index_of_char(i)) as int)
        }
    })
}

/// Which nibble the hex digit at string position `i` renders
/// (positions 8, 13, 18 and 23 hold dashes).
pub open spec fn nibble_index_of_char(i: int) -> int {
    if i < 8 {
        i
    } else if i < 13 {
        i - 1
    } else if i < 18 {
        i - 2
    } else if i < 23 {
        i - 3
    } else {
        i - 4
    }
}

proof fn lemma_nibble_low(bits: u128, k: int)
    ensures
        spec_uuid_nibble(bits, k) < 16,
{
    let sh = (4 * (31 - k)) as u128;
    assert((bits >> sh) & 0xf < 16) by (bit_vector);
}

/// The lowercase hex digit of a value below sixteen.
pub fn hex_digit_u32(n: u32) -> (c: char)
    requires
        n < 16,
    ensures
        c == spec_hex_digit(n as int),
{
    if n == 0 {
        '0'
    } else if n == 1 {
        '1'
    } else if n == 2 {
        '2'
    } else if n == 3 {
        '3'
    } else if n == 4 {
        '4'
    } else if n == 5 {
        '5'
    } else if n == 6 {
        '6'
    } else if n == 7 {
        '7'
    } else if n == 8 {
        '8'
    } else if n == 9 {
        '9'
    } else if n == 10 {
        'a'
    } else if n == 11 {
        'b'
    } else if n == 12 {
        'c'
    } else if n == 13 {
        'd'
    } else if n == 14 {
        'e'
    } else {
        'f'
    }
}

impl UuidVal {
    /// Render the UUID in its canonical lowercase dashed form.
    pub fn to_text(&self) -> (r: String)
        ensures
            r@ == spec_uuid_chars(self.bits),
    {
        let mut r = String::new();
        let mut i: usize = 0;
        while i < 36
            invariant
                i <= 36,
                r@.len() == i,
                forall|j: int| 0 <= j < i ==> r@[j] == spec_uuid_chars(self.bits)[j],
            decreases 36 - i,
        {
            if i == 8 || i == 13 || i == 18 || i == 23 {
                crate::strutil::push_char(&mut r, '-');
            } else {
                let k: usize = if i < 8 {
                    i
                } else if i < 13 {
                    i - 1
                } else if i < 18 {
                    i - 2
                } else if i < 23 {
                    i - 3
                } else {
                    i - 4
                };
                let shift: u128 = (4 * (31 - k)) as u128;
                let nib: u128 = (self.bits >> shift) & 0xf;
                proof {
                    lemma_nibble_low(self.bits, k as int);
                }
                let c = hex_digit_u32(nib as u32);
                crate::strutil::push_char(&mut r, c);
            }
            i = i + 1;
        }
        proof {
            assert(r@ =~= spec_uuid_chars(self.bits));
        }
        r
    }
}

} // verus!
