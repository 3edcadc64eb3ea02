//! The helpers of the decoder and of the instruction semantics.

use chip8::interpreter::{nibble, nibbles};
use chip8::utils::bcd;

#[test]
fn test_nibble() {
    assert_eq!(0xB, nibble(0xABCD, 1));
}

#[test]
fn test_nibbles() {
    assert_eq!(0xBC, nibbles(0xABCD, 1, 2));
}

#[test]
fn test_bcd() {
    for num in 0..255 {
        let bcd = bcd(num);
        assert_eq!(num, bcd[0] * 100 + bcd[1] * 10 + bcd[2]);
    }
}

#[test]
fn nibbles_of_every_range() {
    assert_eq!(0xA, nibbles(0xABCD, 0, 0));
    assert_eq!(0xAB, nibbles(0xABCD, 0, 1));
    assert_eq!(0xBC, nibbles(0xABCD, 0, 2));
    assert_eq!(0xCD, nibbles(0xABCD, 0, 3));
    assert_eq!(0xCD, nibbles(0xABCD, 1, 3));
    assert_eq!(0xCD, nibbles(0xABCD, 2, 3));
    assert_eq!(0xC, nibbles(0xABCD, 2, 2));
    assert_eq!(0xD, nibbles(0xABCD, 3, 3));
}

#[test]
fn bcd_digits_of_the_extremes() {
    assert_eq!([2, 5, 5], bcd(255));
    assert_eq!([0, 0, 0], bcd(0));
    assert_eq!([1, 0, 9], bcd(109));
    assert_eq!([0, 4, 2], bcd(42));
}
