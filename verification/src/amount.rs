//! Non-negative integers of arbitrary size, as asset amounts need them.
//!
//! An `Amount` keeps its base-256 digits least significant first and never
//! ends in a zero digit, so every number has exactly one representation.

use vstd::prelude::*;

verus! {

/// Weight of the digit at position `n` in base 256.
spec fn weight(n: nat) -> nat
    decreases n,
{
    if n == 0 {
        1
    } else {
        256 * weight((n - 1) as nat)
    }
}

/// The number denoted by base-256 digits, least significant first.
spec fn le_value(digits: Seq<u8>) -> nat
    decreases digits.len(),
{
    if digits.len() == 0 {
        0
    } else {
        le_value(digits.drop_last()) + digits.last() as nat * weight((digits.len() - 1) as nat)
    }
}

/// The number denoted by big-endian bytes.
pub open spec fn be_value(bytes: Seq<u8>) -> nat
    decreases bytes.len(),
{
    if bytes.len() == 0 {
        0
    } else {
        256 * be_value(bytes.drop_last()) + bytes.last() as nat
    }
}

/// Digits without a superfluous most significant zero.
spec fn canonical(digits: Seq<u8>) -> bool {
    digits.len() > 0 ==> digits.last() != 0
}

proof fn lemma_weight_positive(n: nat)
    ensures
        weight(n) >= 1,
    decreases n,
{
    if n > 0 {
        lemma_weight_positive((n - 1) as nat);
    }
}

proof fn lemma_weight_monotonic(m: nat, n: nat)
    requires
        m <= n,
    ensures
        weight(m) <= weight(n),
    decreases n,
{
    if m < n {
        lemma_weight_monotonic(m, (n - 1) as nat);
        lemma_weight_positive((n - 1) as nat);
    }
}

proof fn lemma_weight_of_eight()
    ensures
        weight(8) == 0x1_0000_0000_0000_0000,
{
    reveal_with_fuel(weight, 9);
}

/// `n` digits denote a number below `weight(n)`.
proof fn lemma_value_bound(digits: Seq<u8>)
    ensures
        le_value(digits) < weight(digits.len()),
    decreases digits.len(),
{
    if digits.len() > 0 {
        lemma_value_bound(digits.drop_last());
        let w = weight((digits.len() - 1) as nat);
        let top = digits.last() as nat;
        assert(top * w <= 255 * w) by (nonlinear_arith)
            requires
                top <= 255,
        ;
    }
}

/// A non-zero top digit alone outweighs everything below it.
proof fn lemma_top_digit_bound(digits: Seq<u8>)
    requires
        digits.len() > 0,
        digits.last() != 0,
    ensures
        le_value(digits) >= weight((digits.len() - 1) as nat),
{
    let w = weight((digits.len() - 1) as nat);
    let top = digits.last() as nat;
    assert(top * w >= w) by (nonlinear_arith)
        requires
            top >= 1,
    ;
}

proof fn lemma_longer_is_greater(s: Seq<u8>, t: Seq<u8>)
    requires
        canonical(s),
        s.len() > t.len(),
    ensures
        le_value(s) > le_value(t),
{
    lemma_top_digit_bound(s);
    lemma_weight_monotonic(t.len(), (s.len() - 1) as nat);
    lemma_value_bound(t);
}

/// Of two digit strings of one length, the one with the larger digit at the
/// highest position where they differ denotes the larger number.
proof fn lemma_high_digit_decides(s: Seq<u8>, t: Seq<u8>, i: int)
    requires
        s.len() == t.len(),
        0 <= i < s.len(),
        s[i] < t[i],
        forall|j: int| i < j < s.len() ==> s[j] == t[j],
    ensures
        le_value(s) < le_value(t),
    decreases s.len(),
{
    let w = weight((s.len() - 1) as nat);
    if i == s.len() - 1 {
        lemma_value_bound(s.drop_last());
        let a = s.last() as nat;
        let b = t.last() as nat;
        assert(a * w + w <= b * w) by (nonlinear_arith)
            requires
                a + 1 <= b,
        ;
    } else {
        lemma_high_digit_decides(s.drop_last(), t.drop_last(), i);
    }
}

/// Putting a digit below the others multiplies them by 256.
proof fn lemma_value_shift(low: u8, rest: Seq<u8>)
    ensures
        le_value(seq![low] + rest) == low as nat + 256 * le_value(rest),
    decreases rest.len(),
{
    let whole = seq![low] + rest;
    if rest.len() == 0 {
        assert(whole.drop_last() =~= Seq::<u8>::empty());
        assert(whole.last() == low);
        assert(le_value(whole.drop_last()) == 0);
        assert(low as nat * weight(0) == low as nat) by (nonlinear_arith)
            requires
                weight(0) == 1,
        ;
    } else {
        lemma_value_shift(low, rest.drop_last());
        assert(whole.drop_last() =~= seq![low] + rest.drop_last());
        assert(whole.last() == rest.last());
        let w = weight((rest.len() - 1) as nat);
        let top = rest.last() as nat;
        assert(le_value(whole) == le_value(whole.drop_last()) + top * (256 * w));
        assert(top * (256 * w) == 256 * (top * w)) by (nonlinear_arith);
    }
}

/// Reading bytes big-endian is reading them backwards least significant first.
proof fn lemma_reverse_value(bytes: Seq<u8>)
    ensures
        le_value(bytes.reverse()) == be_value(bytes),
    decreases bytes.len(),
{
    if bytes.len() > 0 {
        lemma_reverse_value(bytes.drop_last());
        lemma_value_shift(bytes.last(), bytes.drop_last().reverse());
        assert(bytes.reverse() =~= seq![bytes.last()] + bytes.drop_last().reverse());
    } else {
        assert(bytes.reverse() =~= Seq::<u8>::empty());
    }
}

/// One more digit on top adds that digit times its weight.
proof fn lemma_value_push(digits: Seq<u8>, top: u8)
    ensures
        le_value(digits.push(top)) == le_value(digits) + top as nat * weight(digits.len()),
{
    assert(digits.push(top).drop_last() =~= digits);
}

/// A non-negative integer of arbitrary size.
#[derive(Debug, PartialEq, Eq)]
pub struct Amount {
    digits: Vec<u8>,
}

impl View for Amount {
    type V = nat;

    closed spec fn view(&self) -> nat {
        le_value(self.digits@)
    }
}

impl Clone for Amount {
    fn clone(&self) -> (r: Self)
        ensures
            r@ == self@,
    {
        proof {
            use_type_invariant(self);
        }
        let digits = self.digits.clone();
        assert(digits@ =~= self.digits@);
        Amount { digits }
    }
}

impl Amount {
    #[verifier::type_invariant]
    spec fn well_formed(&self) -> bool {
        canonical(self.digits@)
    }

    /// Drops the superfluous zeros on top of `digits`.
    fn normalized(digits: Vec<u8>) -> (r: Amount)
        ensures
            r@ == le_value(digits@),
    {
        let mut digits = digits;
        let ghost given = digits@;
        while digits.len() > 0 && digits[digits.len() - 1] == 0
            invariant
                le_value(digits@) == le_value(given),
            decreases digits.len(),
        {
            digits.pop();
        }
        Amount { digits }
    }

    /// The amount of nothing.
    pub fn zero() -> (r: Amount)
        ensures
            r@ == 0,
    {
        Amount { digits: Vec::new() }
    }

    /// Whether this is the amount of nothing.
    pub fn is_zero(&self) -> (b: bool)
        ensures
            b == (self@ == 0),
    {
        proof {
            use_type_invariant(self);
            if self.digits@.len() > 0 {
                lemma_top_digit_bound(self.digits@);
                lemma_weight_positive((self.digits@.len() - 1) as nat);
            }
        }
        self.digits.len() == 0
    }

    /// The amount `value`.
    pub fn from_u64(value: u64) -> (r: Amount)
        ensures
            r@ == value,
    {
        let mut digits: Vec<u8> = Vec::new();
        let mut rest: u64 = value;
        assert(rest * weight(0) == rest) by (nonlinear_arith)
            requires
                weight(0) == 1,
        ;
        while rest > 0
            invariant
                le_value(digits@) + rest * weight(digits@.len()) == value,
                rest == 0 ==> canonical(digits@),
            decreases rest,
        {
            let low: u8 = (rest % 256) as u8;
            let next: u64 = rest / 256;
            proof {
                lemma_value_push(digits@, low);
                let w = weight(digits@.len());
                assert(rest * w == low * w + next * (256 * w)) by (nonlinear_arith)
                    requires
                        rest == 256 * next + low,
                ;
            }
            digits.push(low);
            rest = next;
        }
        Amount { digits }
    }

    /// The amount as a `u64`, where it fits.
    pub fn to_u64(&self) -> (r: Option<u64>)
        ensures
            self@ <= u64::MAX ==> r == Some(self@ as u64),
            self@ > u64::MAX ==> r.is_none(),
    {
        proof {
            use_type_invariant(self);
            lemma_weight_of_eight();
        }
        let n: usize = self.digits.len();
        if n > 8 {
            proof {
                lemma_top_digit_bound(self.digits@);
                lemma_weight_monotonic(8, (n - 1) as nat);
            }
            return None;
        }
        let mut sum: u128 = 0;
        let mut unit: u128 = 1;
        let mut k: usize = 0;
        while k < n
            invariant
                k <= n <= 8,
                n == self.digits@.len(),
                unit == weight(k as nat),
                sum == le_value(self.digits@.take(k as int)),
                weight(8) == 0x1_0000_0000_0000_0000,
            decreases n - k,
        {
            let digit: u8 = self.digits[k];
            proof {
                lemma_weight_monotonic(k as nat, 7);
                lemma_weight_monotonic((k + 1) as nat, 8);
                lemma_value_bound(self.digits@.take(k as int));
                lemma_value_push(self.digits@.take(k as int), digit);
                assert(self.digits@.take(k as int).push(digit) =~= self.digits@.take(k + 1));
                assert(digit * unit <= 255 * unit) by (nonlinear_arith)
                    requires
                        digit <= 255,
                        unit >= 0,
                ;
            }
            sum = sum + (digit as u128) * unit;
            unit = unit * 256;
            k = k + 1;
        }
        proof {
            assert(self.digits@.take(n as int) =~= self.digits@);
            lemma_value_bound(self.digits@);
            lemma_weight_monotonic(n as nat, 8);
        }
        Some(sum as u64)
    }

    /// Reads an amount from big-endian bytes; leading zeros do not matter.
    pub fn from_bytes_be(bytes: &[u8]) -> (r: Amount)
        ensures
            r@ == be_value(bytes@),
    {
        let n: usize = bytes.len();
        let mut digits: Vec<u8> = Vec::new();
        let mut i: usize = n;
        while i > 0
            invariant
                i <= n,
                n == bytes@.len(),
                digits@.len() == n - i,
                forall|j: int| 0 <= j < digits@.len() ==> digits@[j] == bytes@[n - 1 - j],
            decreases i,
        {
            i = i - 1;
            digits.push(bytes[i]);
        }
        proof {
            assert(digits@ =~= bytes@.reverse());
            lemma_reverse_value(bytes@);
        }
        Amount::normalized(digits)
    }

    /// The amount as big-endian bytes without leading zeros; zero is empty.
    pub fn to_bytes_be(&self) -> (r: Vec<u8>)
        ensures
            be_value(r@) == self@,
            r@.len() > 0 ==> r@[0] != 0,
    {
        proof {
            use_type_invariant(self);
        }
        let n: usize = self.digits.len();
        let mut bytes: Vec<u8> = Vec::new();
        let mut i: usize = n;
        while i > 0
            invariant
                i <= n,
                n == self.digits@.len(),
                bytes@.len() == n - i,
                forall|j: int| 0 <= j < bytes@.len() ==> bytes@[j] == self.digits@[n - 1 - j],
            decreases i,
        {
            i = i - 1;
            bytes.push(self.digits[i]);
        }
        proof {
            assert(bytes@.reverse() =~= self.digits@);
            lemma_reverse_value(bytes@);
        }
        bytes
    }

    /// Whether this amount is at least `other`.
    pub fn ge(&self, other: &Amount) -> (b: bool)
        ensures
            b == (self@ >= other@),
    {
        proof {
            use_type_invariant(self);
            use_type_invariant(other);
        }
        let n: usize = self.digits.len();
        let m: usize = other.digits.len();
        if n != m {
            proof {
                if n > m {
                    lemma_longer_is_greater(self.digits@, other.digits@);
                } else {
                    lemma_longer_is_greater(other.digits@, self.digits@);
                }
            }
            return n > m;
        }
        let mut i: usize = n;
        while i > 0
            invariant
                i <= n,
                n == self.digits@.len(),
                n == other.digits@.len(),
                forall|j: int| i <= j < n ==> self.digits@[j] == other.digits@[j],
            decreases i,
        {
            i = i - 1;
            let a: u8 = self.digits[i];
            let b: u8 = other.digits[i];
            if a != b {
                proof {
                    if a < b {
                        lemma_high_digit_decides(self.digits@, other.digits@, i as int);
                    } else {
                        lemma_high_digit_decides(other.digits@, self.digits@, i as int);
                    }
                }
                return a > b;
            }
        }
        proof {
            assert(self.digits@ =~= other.digits@);
        }
        true
    }

    /// Whether this amount is more than `other`.
    pub fn gt(&self, other: &Amount) -> (b: bool)
        ensures
            b == (self@ > other@),
    {
        !other.ge(self)
    }

    /// Whether both are the same amount.
    pub fn same(&self, other: &Amount) -> (b: bool)
        ensures
            b == (self@ == other@),
    {
        self.ge(other) && other.ge(self)
    }

    /// `self - other`, where that is not negative.
    pub fn checked_sub(&self, other: &Amount) -> (r: Option<Amount>)
        ensures
            self@ >= other@ ==> r.is_some() && r.unwrap()@ == self@ - other@,
            self@ < other@ ==> r.is_none(),
    {
        if !self.ge(other) {
            return None;
        }
        proof {
            use_type_invariant(self);
            use_type_invariant(other);
            if other.digits@.len() > self.digits@.len() {
                lemma_longer_is_greater(other.digits@, self.digits@);
            }
        }
        let n: usize = self.digits.len();
        let m: usize = other.digits.len();
        let mut digits: Vec<u8> = Vec::new();
        let mut borrow: u8 = 0;
        let mut k: usize = 0;
        while k < n
            invariant
                k <= n,
                m <= n,
                n == self.digits@.len(),
                m == other.digits@.len(),
                digits@.len() == k,
                borrow <= 1,
                le_value(self.digits@.take(k as int)) + borrow * weight(k as nat) == le_value(
                    other.digits@.take(if k <= m { k as int } else { m as int }),
                ) + le_value(digits@),
            decreases n - k,
        {
            let a: u8 = self.digits[k];
            let b: u8 = if k < m { other.digits[k] } else { 0 };
            let taken: u16 = b as u16 + borrow as u16;
            let next: u8 = if a as u16 >= taken { 0 } else { 1 };
            let digit: u8 = if a as u16 >= taken {
                (a as u16 - taken) as u8
            } else {
                (a as u16 + 256 - taken) as u8
            };
            proof {
                let w = weight(k as nat);
                lemma_value_push(self.digits@.take(k as int), a);
                assert(self.digits@.take(k as int).push(a) =~= self.digits@.take(k + 1));
                lemma_value_push(digits@, digit);
                if k < m {
                    lemma_value_push(other.digits@.take(k as int), b);
                    assert(other.digits@.take(k as int).push(b) =~= other.digits@.take(k + 1));
                }
                assert(a * w + next * (256 * w) == borrow * w + b * w + digit * w)
                    by (nonlinear_arith)
                    requires
                        a + 256 * next == borrow + b + digit,
                ;
            }
            digits.push(digit);
            borrow = next;
            k = k + 1;
        }
        proof {
            assert(self.digits@.take(n as int) =~= self.digits@);
            assert(other.digits@.take(m as int) =~= other.digits@);
            lemma_value_bound(digits@);
            if borrow == 1 {
                assert(borrow * weight(n as nat) == weight(n as nat));
            }
            assert(borrow == 0);
        }
        Some(Amount::normalized(digits))
    }

    /// `self - other`, or zero where that would be negative.
    pub fn saturating_sub(&self, other: &Amount) -> (r: Amount)
        ensures
            r@ == if self@ >= other@ { self@ - other@ } else { 0 },
    {
        match self.checked_sub(other) {
            Some(difference) => difference,
            None => Amount::zero(),
        }
    }
}

} // verus!
