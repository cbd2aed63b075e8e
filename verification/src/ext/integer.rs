//! Counting the decimal digits of integers.

use vstd::prelude::*;

verus! {

/// Number of decimal digits of `n` (`0` has one digit).
pub open spec fn decimal_digits(n: nat) -> nat
    decreases n,
{
    if n < 10 {
        1
    } else {
        1 + decimal_digits(n / 10)
    }
}

/// `10` to the power `k`.
pub open spec fn pow10(k: nat) -> nat
    decreases k,
{
    if k == 0 {
        1
    } else {
        10 * pow10((k - 1) as nat)
    }
}

/// A number below `10^k` has at most `k` digits.
pub proof fn lemma_digits_bound(n: nat, k: nat)
    requires
        k >= 1,
        n < pow10(k),
    ensures
        decimal_digits(n) <= k,
    decreases k,
{
    if n >= 10 {
        assert(k >= 2) by {
            if k == 1 {
                assert(pow10(1) == 10) by {
                    reveal_with_fuel(pow10, 2);
                }
            }
        }
        assert(n / 10 < pow10((k - 1) as nat));
        lemma_digits_bound(n / 10, (k - 1) as nat);
    }
}

/// Every magnitude of a machine integer has at most 39 digits.
pub proof fn lemma_digits_machine(n: nat)
    requires
        n <= 0x1_0000_0000_0000_0000_0000_0000_0000_0000,
    ensures
        decimal_digits(n) <= 39,
{
    assert(pow10(39) == 1_000_000_000_000_000_000_000_000_000_000_000_000_000) by {
        reveal_with_fuel(pow10, 40);
    }
    lemma_digits_bound(n, 39);
}

/// Extension methods on integers.
pub trait IntegerExt: Sized {
    /// The absolute value.
    spec fn magnitude(&self) -> nat;

    proof fn lemma_magnitude_bound(&self)
        ensures
            self.magnitude() <= 0x1_0000_0000_0000_0000_0000_0000_0000_0000,
    ;

    /// Divide by ten, rounding toward zero.
    fn div_assign_10(&mut self)
        ensures
            final(self).magnitude() == old(self).magnitude() / 10,
    ;

    fn is_zero(&self) -> (b: bool)
        ensures
            b == (self.magnitude() == 0),
    ;

    /// Count the number of digits for an integer.
    ///
    /// If the number is negative, it should not count the negative symbol.
    fn digits(self) -> (d: u32)
        ensures
            d == decimal_digits(self.magnitude()),
    {
        match self.checked_digits() {
            Some(d) => d,
            None => 0,
        }
    }

    /// The number of digits, as [IntegerExt::digits].
    fn checked_digits(self) -> (d: Option<u32>)
        ensures
            d == Some(decimal_digits(self.magnitude()) as u32),
            decimal_digits(self.magnitude()) <= 39,
    {
        let ghost start = self.magnitude();
        proof {
            self.lemma_magnitude_bound();
            lemma_digits_machine(start);
        }
        if self.is_zero() {
            Some(1)
        } else {
            let mut n = self;
            let mut digits: u32 = 1;
            loop
                invariant
                    n.magnitude() > 0,
                    digits + decimal_digits(n.magnitude()) == decimal_digits(start) + 1,
                    decimal_digits(start) <= 39,
                    start == self.magnitude(),
                decreases n.magnitude(),
            {
                let ghost before = n.magnitude();
                n.div_assign_10();
                if n.is_zero() {
                    return Some(digits);
                }
                digits = digits + 1;
            }
        }
    }
}

impl IntegerExt for i8 {
    open spec fn magnitude(&self) -> nat {
        if *self < 0 {
            (-(*self as int)) as nat
        } else {
            *self as nat
        }
    }

    proof fn lemma_magnitude_bound(&self) {
    }

    fn div_assign_10(&mut self) {
        *self = (*self).checked_div(10).unwrap();
    }

    fn is_zero(&self) -> (b: bool) {
        *self == 0
    }
}

impl IntegerExt for i16 {
    open spec fn magnitude(&self) -> nat {
        if *self < 0 {
            (-(*self as int)) as nat
        } else {
            *self as nat
        }
    }

    proof fn lemma_magnitude_bound(&self) {
    }

    fn div_assign_10(&mut self) {
        *self = (*self).checked_div(10).unwrap();
    }

    fn is_zero(&self) -> (b: bool) {
        *self == 0
    }
}

impl IntegerExt for i32 {
    open spec fn magnitude(&self) -> nat {
        if *self < 0 {
            (-(*self as int)) as nat
        } else {
            *self as nat
        }
    }

    proof fn lemma_magnitude_bound(&self) {
    }

    fn div_assign_10(&mut self) {
        *self = (*self).checked_div(10).unwrap();
    }

    fn is_zero(&self) -> (b: bool) {
        *self == 0
    }
}

impl IntegerExt for i64 {
    open spec fn magnitude(&self) -> nat {
        if *self < 0 {
            (-(*self as int)) as nat
        } else {
            *self as nat
        }
    }

    proof fn lemma_magnitude_bound(&self) {
    }

    fn div_assign_10(&mut self) {
        *self = (*self).checked_div(10).unwrap();
    }

    fn is_zero(&self) -> (b: bool) {
        *self == 0
    }
}

impl IntegerExt for i128 {
    open spec fn magnitude(&self) -> nat {
        if *self < 0 {
            (-(*self as int)) as nat
        } else {
            *self as nat
        }
    }

    proof fn lemma_magnitude_bound(&self) {
    }

    fn div_assign_10(&mut self) {
        *self = (*self).checked_div(10).unwrap();
    }

    fn is_zero(&self) -> (b: bool) {
        *self == 0
    }
}

impl IntegerExt for isize {
    open spec fn magnitude(&self) -> nat {
        if *self < 0 {
            (-(*self as int)) as nat
        } else {
            *self as nat
        }
    }

    proof fn lemma_magnitude_bound(&self) {
    }

    fn div_assign_10(&mut self) {
        *self = (*self).checked_div(10).unwrap();
    }

    fn is_zero(&self) -> (b: bool) {
        *self == 0
    }
}

impl IntegerExt for u8 {
    open spec fn magnitude(&self) -> nat {
        *self as nat
    }

    proof fn lemma_magnitude_bound(&self) {
    }

    fn div_assign_10(&mut self) {
        *self = *self / 10;
    }

    fn is_zero(&self) -> (b: bool) {
        *self == 0
    }
}

impl IntegerExt for u16 {
    open spec fn magnitude(&self) -> nat {
        *self as nat
    }

    proof fn lemma_magnitude_bound(&self) {
    }

    fn div_assign_10(&mut self) {
        *self = *self / 10;
    }

    fn is_zero(&self) -> (b: bool) {
        *self == 0
    }
}

impl IntegerExt for u32 {
    open spec fn magnitude(&self) -> nat {
        *self as nat
    }

    proof fn lemma_magnitude_bound(&self) {
    }

    fn div_assign_10(&mut self) {
        *self = *self / 10;
    }

    fn is_zero(&self) -> (b: bool) {
        *self == 0
    }
}

impl IntegerExt for u64 {
    open spec fn magnitude(&self) -> nat {
        *self as nat
    }

    proof fn lemma_magnitude_bound(&self) {
    }

    fn div_assign_10(&mut self) {
        *self = *self / 10;
    }

    fn is_zero(&self) -> (b: bool) {
        *self == 0
    }
}

impl IntegerExt for u128 {
    open spec fn magnitude(&self) -> nat {
        *self as nat
    }

    proof fn lemma_magnitude_bound(&self) {
    }

    fn div_assign_10(&mut self) {
        *self = *self / 10;
    }

    fn is_zero(&self) -> (b: bool) {
        *self == 0
    }
}

impl IntegerExt for usize {
    open spec fn magnitude(&self) -> nat {
        *self as nat
    }

    proof fn lemma_magnitude_bound(&self) {
    }

    fn div_assign_10(&mut self) {
        *self = *self / 10;
    }

    fn is_zero(&self) -> (b: bool) {
        *self == 0
    }
}

/// The digit count does not depend on the sign.
pub proof fn law_digits_ignore_sign(i: i32)
    requires
        i != i32::MIN,
    ensures
        ((-i) as i32).magnitude() == i.magnitude(),
        decimal_digits(((-i) as i32).magnitude()) == decimal_digits(i.magnitude()),
{
}

} // verus!
