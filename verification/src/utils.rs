//! Small numeric helpers shared by the instruction semantics.

use vstd::prelude::*;

verus! {

/// The three decimal digits of `num`, most significant first.
pub open spec fn bcd_digits(num: u8) -> Seq<u8> {
    seq![num / 100, ((num / 10) % 10) as u8, (num % 10) as u8]
}

/// Returns the binary-coded-decimal representation of `num`: hundreds, tens, ones.
pub fn bcd(num: u8) -> (digits: [u8; 3])
    ensures
        digits@ == bcd_digits(num),
        digits[0] * 100 + digits[1] * 10 + digits[2] == num,
        forall|i: int| 0 <= i < 3 ==> digits[i] < 10,
{
    [num / 100 % 10, num / 10 % 10, num % 10]
}

} // verus!
