use vstd::prelude::*;

verus! {

/// The lowercase hexadecimal digit for `d` (0 to 15); also the decimal digit
/// for `d` below 10.
pub open spec fn digit_text(d: int) -> Seq<char> {
    if d == 0 {
        "0"@
    } else if d == 1 {
        "1"@
    } else if d == 2 {
        "2"@
    } else if d == 3 {
        "3"@
    } else if d == 4 {
        "4"@
    } else if d == 5 {
        "5"@
    } else if d == 6 {
        "6"@
    } else if d == 7 {
        "7"@
    } else if d == 8 {
        "8"@
    } else if d == 9 {
        "9"@
    } else if d == 10 {
        "a"@
    } else if d == 11 {
        "b"@
    } else if d == 12 {
        "c"@
    } else if d == 13 {
        "d"@
    } else if d == 14 {
        "e"@
    } else {
        "f"@
    }
}

/// `v` written in decimal, without leading zeros.
pub open spec fn decimal_text(v: nat) -> Seq<char>
    decreases v,
{
    if v < 10 {
        digit_text(v as int)
    } else {
        decimal_text(v / 10) + digit_text((v % 10) as int)
    }
}

/// `v` as two lowercase hexadecimal digits.
pub open spec fn hex2_text(v: u8) -> Seq<char> {
    digit_text((v / 16) as int) + digit_text((v % 16) as int)
}

/// The digit for `d`.
fn digit(d: u8) -> (s: &'static str)
    requires
        d < 16,
    ensures
        s@ == digit_text(d as int),
{
    match d {
        0 => "0",
        1 => "1",
        2 => "2",
        3 => "3",
        4 => "4",
        5 => "5",
        6 => "6",
        7 => "7",
        8 => "8",
        9 => "9",
        10 => "a",
        11 => "b",
        12 => "c",
        13 => "d",
        14 => "e",
        _ => "f",
    }
}

/// Appends `v` in decimal.
pub fn push_decimal(s: &mut String, v: u8)
    ensures
        final(s)@ == old(s)@ + decimal_text(v as nat),
{
    proof {
        reveal_with_fuel(decimal_text, 3);
    }
    if v >= 100 {
        s.append(digit(v / 100));
        s.append(digit((v / 10) % 10));
        s.append(digit(v % 10));
        assert(decimal_text(v as nat) =~= digit_text((v / 100) as int) + digit_text(
            ((v / 10) % 10) as int,
        ) + digit_text((v % 10) as int));
    } else if v >= 10 {
        s.append(digit(v / 10));
        s.append(digit(v % 10));
    } else {
        s.append(digit(v));
    }
}

/// `v` in decimal, with a minus sign when negative.
pub open spec fn signed_text(v: i8) -> Seq<char> {
    if v < 0 {
        "-"@ + decimal_text((-v) as nat)
    } else {
        decimal_text(v as nat)
    }
}

/// Appends `v` in decimal, with a minus sign when negative.
pub fn push_signed(s: &mut String, v: i8)
    ensures
        final(s)@ == old(s)@ + signed_text(v),
{
    if v < 0 {
        s.append("-");
        let m = (0 - (v as i16)) as u8;
        push_decimal(s, m);
    } else {
        push_decimal(s, v as u8);
    }
}

/// Appends `v` as two lowercase hexadecimal digits.
pub fn push_hex2(s: &mut String, v: u8)
    ensures
        final(s)@ == old(s)@ + hex2_text(v),
{
    s.append(digit(v / 16));
    s.append(digit(v % 16));
}

} // verus!
