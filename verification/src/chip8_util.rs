//! Checking that a value is no wider than its field, and the overflow-checked
//! byte arithmetic the register instructions are built on.

use vstd::prelude::*;
use crate::error::Chip8Error;
use num::CheckedAdd;
use num::CheckedSub;

verus! {

/// A value fits a mask when it has no bit outside of it.
pub open spec fn fits_mask(value: u16, mask: u16) -> bool {
    value & mask == value
}

/// For the three field widths of an instruction word, fitting the mask is
/// the same as not exceeding it.
pub proof fn lemma_field_masks(value: u16)
    ensures
        fits_mask(value, 0xF) <==> value <= 0xF,
        fits_mask(value, 0xFF) <==> value <= 0xFF,
        fits_mask(value, 0xFFF) <==> value <= 0xFFF,
{
    assert((value & 0xF == value) <==> value <= 0xF) by (bit_vector);
    assert((value & 0xFF == value) <==> value <= 0xFF) by (bit_vector);
    assert((value & 0xFFF == value) <==> value <= 0xFFF) by (bit_vector);
}

/// Hands `value` back when it fits `mask`, and rejects it otherwise.
pub fn validate_argument(value: u16, mask: u16) -> (res: Result<u16, Chip8Error>)
    ensures
        fits_mask(value, mask) ==> res == Ok::<u16, Chip8Error>(value),
        !fits_mask(value, mask) ==> res == Err::<u16, Chip8Error>(Chip8Error::ArgumentOutOfRange),
{
    if value & mask != value {
        return Err(Chip8Error::ArgumentOutOfRange);
    }
    Ok(value)
}

/// Checks a four-bit field (a register number, a digit, a key or a row
/// count) and hands it back as an index.
pub fn validate_nibble(nibble: u8) -> (res: Result<usize, Chip8Error>)
    ensures
        nibble <= 0xF ==> res == Ok::<usize, Chip8Error>(nibble as usize),
        nibble > 0xF ==> res == Err::<usize, Chip8Error>(Chip8Error::ArgumentOutOfRange),
{
    proof {
        lemma_field_masks(nibble as u16);
    }
    match validate_argument(nibble as u16, 0xF) {
        Ok(_) => Ok(nibble as usize),
        Err(e) => Err(e),
    }
}

/// Checks a 12-bit address.
pub fn validate_address(address: u16) -> (res: Result<u16, Chip8Error>)
    ensures
        address <= 0xFFF ==> res == Ok::<u16, Chip8Error>(address),
        address > 0xFFF ==> res == Err::<u16, Chip8Error>(Chip8Error::ArgumentOutOfRange),
{
    proof {
        lemma_field_masks(address);
    }
    validate_argument(address, 0xFFF)
}

/// `num::CheckedAdd::checked_add` on two bytes. Trusted: the sum when it
/// fits a byte, and `None` when it does not.
#[verifier::external_body]
pub(crate) fn checked_add_u8(a: u8, b: u8) -> (sum: Option<u8>)
    ensures
        a + b <= 255 ==> sum == Some((a + b) as u8),
        a + b > 255 ==> sum is None,
{
    CheckedAdd::checked_add(&a, &b)
}

/// `num::CheckedSub::checked_sub` on two bytes. Trusted: the difference
/// when it is not negative, and `None` when it is.
#[verifier::external_body]
pub(crate) fn checked_sub_u8(a: u8, b: u8) -> (difference: Option<u8>)
    ensures
        a >= b ==> difference == Some((a - b) as u8),
        a < b ==> difference is None,
{
    CheckedSub::checked_sub(&a, &b)
}

} // verus!
