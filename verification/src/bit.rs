use vstd::prelude::*;

verus! {

/// Bit `n` of `byte`, as 0 or 1.
pub fn get(byte: u8, n: u8) -> (r: u8)
    requires
        n < 8,
    ensures
        r == (byte >> n) & 1,
{
    (byte >> n) & 1
}

pub fn set(byte: &mut u8, n: u8)
    requires
        n < 8,
    ensures
        *final(byte) == *old(byte) | (1u8 << n),
{
    *byte = *byte | (1 << n)
}

pub fn reset(byte: &mut u8, n: u8)
    requires
        n < 8,
    ensures
        *final(byte) == *old(byte) & !(1u8 << n),
{
    *byte = *byte & !(1 << n)
}

pub fn toggle(byte: &mut u8, n: u8)
    requires
        n < 8,
    ensures
        *final(byte) == *old(byte) ^ (1u8 << n),
{
    *byte = *byte ^ (1 << n)
}

} // verus!
