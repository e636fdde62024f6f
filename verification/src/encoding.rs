//! Writing characters as UTF-8 into a byte buffer.
use vstd::prelude::*;
use vstd::utf8::*;

verus! {

/// The number of bytes that `c` takes in UTF-8.
pub fn len_utf8(c: char) -> (len: usize)
    ensures
        len == encode_scalar(c as u32).len(),
        1 <= len <= 4,
{
    let scalar: u32 = c as u32;
    if scalar < 0x80 {
        1
    } else if scalar < 0x800 {
        2
    } else if scalar < 0x10000 {
        3
    } else {
        4
    }
}

/// Writes the UTF-8 form of `c` into `output` from position `at` on, and
/// returns the number of bytes written.  The bytes around them stay.
pub fn encode_utf8_at(c: char, output: &mut [u8], at: usize) -> (len: usize)
    requires
        at + encode_scalar(c as u32).len() <= old(output)@.len(),
    ensures
        len == encode_scalar(c as u32).len(),
        final(output)@ == old(output)@.subrange(0, at as int) + encode_scalar(c as u32) + old(
            output,
        )@.subrange(at + len, old(output)@.len() as int),
{
    let scalar: u32 = c as u32;
    if scalar < 0x80 {
        let b0: u8 = (scalar & 0x7F) as u8;
        output[at] = b0;
        assert(output@ =~= old(output)@.subrange(0, at as int) + encode_scalar(scalar) + old(
            output,
        )@.subrange(at + 1, old(output)@.len() as int));
        1
    } else if scalar < 0x800 {
        let b0: u8 = 0xC0 | ((scalar >> 6) & 0x1F) as u8;
        let b1: u8 = 0x80 | (scalar & 0x3F) as u8;
        output[at] = b0;
        output[at + 1] = b1;
        assert(output@ =~= old(output)@.subrange(0, at as int) + encode_scalar(scalar) + old(
            output,
        )@.subrange(at + 2, old(output)@.len() as int));
        2
    } else if scalar < 0x10000 {
        let b0: u8 = 0xE0 | ((scalar >> 12) & 0x0F) as u8;
        let b1: u8 = 0x80 | ((scalar >> 6) & 0x3F) as u8;
        let b2: u8 = 0x80 | (scalar & 0x3F) as u8;
        output[at] = b0;
        output[at + 1] = b1;
        output[at + 2] = b2;
        assert(output@ =~= old(output)@.subrange(0, at as int) + encode_scalar(scalar) + old(
            output,
        )@.subrange(at + 3, old(output)@.len() as int));
        3
    } else {
        let b0: u8 = 0xF0 | ((scalar >> 18) & 0x7) as u8;
        let b1: u8 = 0x80 | ((scalar >> 12) & 0x3F) as u8;
        let b2: u8 = 0x80 | ((scalar >> 6) & 0x3F) as u8;
        let b3: u8 = 0x80 | (scalar & 0x3F) as u8;
        output[at] = b0;
        output[at + 1] = b1;
        output[at + 2] = b2;
        output[at + 3] = b3;
        assert(output@ =~= old(output)@.subrange(0, at as int) + encode_scalar(scalar) + old(
            output,
        )@.subrange(at + 4, old(output)@.len() as int));
        4
    }
}

} // verus!
