//! Decimal digits: what a run of ASCII digits is worth, and how a number is
//! written with them.
use vstd::prelude::*;

verus! {

/// An ASCII decimal digit.
pub open spec fn is_digit(b: u8) -> bool {
    48 <= b <= 57
}

/// Every byte is an ASCII decimal digit.
pub open spec fn all_digits(d: Seq<u8>) -> bool {
    forall|i: int| 0 <= i < d.len() ==> is_digit(#[trigger] d[i])
}

/// The value of a run of decimal digits, most significant first.
pub open spec fn decimal_value(d: Seq<u8>) -> int
    decreases d.len(),
{
    if d.len() == 0 {
        0
    } else {
        decimal_value(d.drop_last()) * 10 + (d.last() - 48)
    }
}

/// The ASCII digit for `n` (0–9).
pub open spec fn digit_byte(n: int) -> u8 {
    (n + 48) as u8
}

/// `n` written in decimal, without leading zeros.
pub open spec fn digits_of(n: nat) -> Seq<u8>
    decreases n,
{
    if n < 10 {
        seq![digit_byte(n as int)]
    } else {
        digits_of(n / 10).push(digit_byte((n % 10) as int))
    }
}

/// `k` zero digits.
pub open spec fn zeros(k: nat) -> Seq<u8> {
    Seq::new(k, |i: int| 48u8)
}

/// `n` in decimal, left-padded with zeros to at least `width` digits.
pub open spec fn zero_padded(n: nat, width: nat) -> Seq<u8> {
    let d = digits_of(n);
    if d.len() < width {
        zeros((width - d.len()) as nat) + d
    } else {
        d
    }
}

/// Appending a digit multiplies by ten and adds it.
pub proof fn lemma_decimal_push(d: Seq<u8>, b: u8)
    ensures
        decimal_value(d.push(b)) == decimal_value(d) * 10 + (b - 48),
{
    assert(d.push(b).drop_last() =~= d);
}

/// A run of digits is worth at least 0.
pub proof fn lemma_decimal_nonneg(d: Seq<u8>)
    requires
        all_digits(d),
    ensures
        decimal_value(d) >= 0,
    decreases d.len(),
{
    if d.len() > 0 {
        lemma_decimal_nonneg(d.drop_last());
    }
}

/// A prefix of a run of digits is worth no more than the whole run.
pub proof fn lemma_decimal_prefix_le(d: Seq<u8>, k: int)
    requires
        all_digits(d),
        0 <= k <= d.len(),
    ensures
        decimal_value(d.take(k)) <= decimal_value(d),
    decreases d.len(),
{
    if k < d.len() {
        lemma_decimal_prefix_le(d.drop_last(), k);
        assert(d.drop_last().take(k) =~= d.take(k));
        lemma_decimal_nonneg(d.drop_last());
    } else {
        assert(d.take(k) =~= d);
    }
}

/// Leading zeros do not change the value.
pub proof fn lemma_decimal_leading_zeros(k: nat, d: Seq<u8>)
    ensures
        decimal_value(zeros(k) + d) == decimal_value(d),
    decreases d.len(),
{
    if d.len() == 0 {
        assert(zeros(k) + d =~= zeros(k));
        lemma_decimal_zeros(k);
    } else {
        lemma_decimal_leading_zeros(k, d.drop_last());
        assert((zeros(k) + d).drop_last() =~= zeros(k) + d.drop_last());
    }
}

/// A run of zeros is worth zero.
pub proof fn lemma_decimal_zeros(k: nat)
    ensures
        decimal_value(zeros(k)) == 0,
    decreases k,
{
    if k > 0 {
        lemma_decimal_zeros((k - 1) as nat);
        assert(zeros(k).drop_last() =~= zeros((k - 1) as nat));
    }
}

/// Writing `n` in decimal gives digits worth `n`.
pub proof fn lemma_digits_of(n: nat)
    ensures
        all_digits(digits_of(n)),
        decimal_value(digits_of(n)) == n,
        digits_of(n).len() >= 1,
        n < 10 ==> digits_of(n).len() == 1,
        n < 100 ==> digits_of(n).len() <= 2,
        n >= 10 ==> digits_of(n).len() >= 2,
        n >= 100 ==> digits_of(n).len() >= 3,
        n >= 1000 ==> digits_of(n).len() >= 4,
    decreases n,
{
    if n < 10 {
        assert(decimal_value(digits_of(n)) == decimal_value(digits_of(n).drop_last()) * 10 + (
        digits_of(n).last() - 48));
        assert(digits_of(n).drop_last() =~= Seq::<u8>::empty());
    } else {
        lemma_digits_of(n / 10);
        lemma_decimal_push(digits_of(n / 10), digit_byte((n % 10) as int));
    }
}

/// Zero-padding `n` gives digits worth `n`, at least `width` of them, and
/// exactly `width` when `n` has no more digits than that.
pub proof fn lemma_zero_padded(n: nat, width: nat)
    ensures
        all_digits(zero_padded(n, width)),
        decimal_value(zero_padded(n, width)) == n,
        zero_padded(n, width).len() >= width,
        zero_padded(n, width).len() >= 1,
        n < 100 && width == 2 ==> zero_padded(n, width).len() == 2,
{
    lemma_digits_of(n);
    let d = digits_of(n);
    if d.len() < width {
        lemma_decimal_leading_zeros((width - d.len()) as nat, d);
        assert forall|i: int| 0 <= i < zero_padded(n, width).len() implies is_digit(
            #[trigger] zero_padded(n, width)[i],
        ) by {
            if i >= width - d.len() {
                assert(zero_padded(n, width)[i] == d[i - (width - d.len())]);
            }
        }
    }
}

/// The value of the digits `b[start..end]`, or `None` when it exceeds `isize::MAX`.
pub fn parse_decimal(b: &[u8], start: usize, end: usize) -> (r: Option<isize>)
    requires
        start <= end <= b@.len(),
        all_digits(b@.subrange(start as int, end as int)),
    ensures
        decimal_value(b@.subrange(start as int, end as int)) <= isize::MAX <==> r is Some,
        r matches Some(v) ==> v == decimal_value(b@.subrange(start as int, end as int)),
{
    let ghost d = b@.subrange(start as int, end as int);
    let mut value: isize = 0;
    let mut i = start;
    proof {
        assert(d.take(0) =~= Seq::<u8>::empty());
    }
    while i < end
        invariant
            start <= i <= end <= b@.len(),
            d == b@.subrange(start as int, end as int),
            all_digits(d),
            0 <= value,
            value == decimal_value(d.take(i - start)),
        decreases end - i,
    {
        proof {
            assert(is_digit(d[i - start]));
            assert(b@[i as int] == d[i - start]);
        }
        let digit = (b[i] - 48) as isize;
        proof {
            assert(d.take(i - start + 1) =~= d.take(i - start).push(d[i - start]));
            lemma_decimal_push(d.take(i - start), d[i - start]);
            lemma_decimal_prefix_le(d, i - start + 1);
        }
        if value > (isize::MAX - digit) / 10 {
            proof {
                assert(value * 10 + digit > isize::MAX) by (nonlinear_arith)
                    requires
                        value > (isize::MAX - digit) / 10,
                        0 <= digit <= 9,
                ;
            }
            return None;
        }
        proof {
            assert(value * 10 + digit <= isize::MAX) by (nonlinear_arith)
                requires
                    value <= (isize::MAX - digit) / 10,
                    0 <= digit <= 9,
                    value >= 0,
            ;
        }
        value = value * 10 + digit;
        i = i + 1;
    }
    proof {
        assert(d.take(end - start) =~= d);
    }
    Some(value)
}

} // verus!
