use vstd::prelude::*;

verus! {

/// The last decimal digit of `n`, sign aside.
pub open spec fn last_digit(n: int) -> int {
    if n < 0 {
        (-n) % 10
    } else {
        n % 10
    }
}

/// The character that labels a row or column at offset `n` from the centre of
/// the grid: the last character of `n` written in decimal, which is its last digit.
pub fn axis_label(n: i32) -> (r: char)
    ensures
        r as u32 == '0' as u32 + last_digit(n as int),
{
    let d: i32 = if n < 0 { -(n % 10) } else { n % 10 };
    ((48u8 + d as u8) as char)
}

} // verus!
