//! Base-ten rendering of unsigned integers as ASCII bytes.

use vstd::prelude::*;

verus! {

/// The ASCII code of the digit `d`, for `d` below ten.
pub open spec fn digit_byte(d: nat) -> u8 {
    (48 + d) as u8
}

/// The canonical base-ten rendering of `n`: no sign, no leading zero, and the
/// single digit `0` for zero.
pub open spec fn decimal(n: nat) -> Seq<u8>
    decreases n,
{
    if n < 10 {
        seq![digit_byte(n)]
    } else {
        decimal(n / 10).push(digit_byte(n % 10))
    }
}

/// Ten to the power `k`.
pub open spec fn pow10(k: nat) -> nat
    decreases k,
{
    if k == 0 {
        1
    } else {
        10 * pow10((k - 1) as nat)
    }
}

/// A number below ten to the `k` has at most `k` digits, and every number has
/// at least one.
pub proof fn lemma_decimal_length(n: nat, k: nat)
    requires
        k >= 1,
        n < pow10(k),
    ensures
        1 <= decimal(n).len() <= k,
    decreases k,
{
    reveal_with_fuel(pow10, 2);
    if n >= 10 {
        lemma_decimal_length(n / 10, (k - 1) as nat);
    }
}

/// The longest rendering of a 128-bit number.
pub const MAX_DIGITS: usize = 39;

/// Renders `n` in base ten.
pub fn render_decimal(n: u128) -> (text: Vec<u8>)
    ensures
        text@ == decimal(n as nat),
        1 <= text@.len() <= MAX_DIGITS,
    decreases n,
{
    proof {
        assert(pow10(39) == 1_000_000_000_000_000_000_000_000_000_000_000_000_000) by {
            reveal_with_fuel(pow10, 40);
        }
        lemma_decimal_length(n as nat, 39);
    }
    if n < 10 {
        let digit: u8 = 48 + (n as u8);
        vec![digit]
    } else {
        let mut text = render_decimal(n / 10);
        let digit: u8 = 48 + ((n % 10) as u8);
        text.push(digit);
        text
    }
}

} // verus!
