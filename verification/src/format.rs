//! Writing tenors in their canonical notation.
use vstd::prelude::*;

use crate::clock::{clock_year, current_reference_year};
use crate::digits::{digit_byte, digits_of, zero_padded, zeros};
use crate::model::{floor_div, floor_rem, in_isize, year_of};
use crate::notation::{chars_of, format_bytes, four_wide, month_letter, year_field};
use crate::tenor::Tenor;
use crate::tenor_type::TenorType;

verus! {

broadcast use vstd::string::group_string_axioms;

/// Characters of concatenated bytes are the concatenated characters.
proof fn lemma_chars_of_add(a: Seq<u8>, b: Seq<u8>)
    ensures
        chars_of(a + b) == chars_of(a) + chars_of(b),
{
    assert(chars_of(a + b) =~= chars_of(a) + chars_of(b));
}

/// The one-character string of a decimal digit.
fn digit_str(d: u8) -> (s: &'static str)
    requires
        d < 10,
    ensures
        s@ == chars_of(seq![digit_byte(d as int)]),
{
    proof {
        assert(chars_of(seq![digit_byte(d as int)]) =~= seq![digit_byte(d as int) as char]);
    }
    if d == 0 {
        proof { reveal_strlit("0"); }
        "0"
    } else if d == 1 {
        proof { reveal_strlit("1"); }
        "1"
    } else if d == 2 {
        proof { reveal_strlit("2"); }
        "2"
    } else if d == 3 {
        proof { reveal_strlit("3"); }
        "3"
    } else if d == 4 {
        proof { reveal_strlit("4"); }
        "4"
    } else if d == 5 {
        proof { reveal_strlit("5"); }
        "5"
    } else if d == 6 {
        proof { reveal_strlit("6"); }
        "6"
    } else if d == 7 {
        proof { reveal_strlit("7"); }
        "7"
    } else if d == 8 {
        proof { reveal_strlit("8"); }
        "8"
    } else {
        proof { reveal_strlit("9"); }
        "9"
    }
}

/// The one-letter futures month code of a zero-based month.
fn month_code_str(m0: usize) -> (s: &'static str)
    requires
        m0 < 12,
    ensures
        s@ == chars_of(seq![month_letter(m0 as int)]),
{
    proof {
        assert(chars_of(seq![month_letter(m0 as int)]) =~= seq![month_letter(m0 as int) as char]);
    }
    if m0 == 0 {
        proof { reveal_strlit("F"); }
        "F"
    } else if m0 == 1 {
        proof { reveal_strlit("G"); }
        "G"
    } else if m0 == 2 {
        proof { reveal_strlit("H"); }
        "H"
    } else if m0 == 3 {
        proof { reveal_strlit("J"); }
        "J"
    } else if m0 == 4 {
        proof { reveal_strlit("K"); }
        "K"
    } else if m0 == 5 {
        proof { reveal_strlit("M"); }
        "M"
    } else if m0 == 6 {
        proof { reveal_strlit("N"); }
        "N"
    } else if m0 == 7 {
        proof { reveal_strlit("Q"); }
        "Q"
    } else if m0 == 8 {
        proof { reveal_strlit("U"); }
        "U"
    } else if m0 == 9 {
        proof { reveal_strlit("V"); }
        "V"
    } else if m0 == 10 {
        proof { reveal_strlit("X"); }
        "X"
    } else {
        proof { reveal_strlit("Z"); }
        "Z"
    }
}

/// Append a single ASCII byte's character, given as a one-character literal.
fn push_literal(out: &mut String, lit: &str, b: Ghost<u8>)
    requires
        lit@ == chars_of(seq![b@]),
    ensures
        final(out)@ == old(out)@ + chars_of(seq![b@]),
{
    out.append(lit);
}

/// Append `H`.
fn write_letter_h(out: &mut String)
    ensures
        final(out)@ == old(out)@ + chars_of(seq![72u8]),
{
    let lit = "H";
    proof {
        reveal_strlit("H");
        assert(lit@ =~= seq!['H']);
        assert(chars_of(seq![72u8]) =~= seq!['H']);
    }
    push_literal(out, lit, Ghost(72u8));
}

/// Append `Q`.
fn write_letter_q(out: &mut String)
    ensures
        final(out)@ == old(out)@ + chars_of(seq![81u8]),
{
    let lit = "Q";
    proof {
        reveal_strlit("Q");
        assert(lit@ =~= seq!['Q']);
        assert(chars_of(seq![81u8]) =~= seq!['Q']);
    }
    push_literal(out, lit, Ghost(81u8));
}

/// Append `n` in decimal.
fn write_digits(out: &mut String, n: u64)
    ensures
        final(out)@ == old(out)@ + chars_of(digits_of(n as nat)),
    decreases n,
{
    if n >= 10 {
        write_digits(out, n / 10);
        let d = (n % 10) as u8;
        out.append(digit_str(d));
        proof {
            lemma_chars_of_add(digits_of((n / 10) as nat), seq![digit_byte(d as int)]);
            assert(digits_of(n as nat) == digits_of((n / 10) as nat).push(digit_byte((n % 10) as int)));
            assert(digits_of((n / 10) as nat).push(digit_byte(d as int)) =~= digits_of((n / 10) as nat) + seq![digit_byte(d as int)]);
        }
    } else {
        out.append(digit_str(n as u8));
    }
}

/// How many decimal digits `n` has.
fn digit_count(n: u64) -> (c: usize)
    ensures
        c == digits_of(n as nat).len(),
        1 <= c <= 20,
    decreases n,
{
    if n >= 10 {
        let c = digit_count(n / 10);
        proof {
            assert(digits_of(n as nat) == digits_of((n / 10) as nat).push(digit_byte((n % 10) as int)));
            assert(c <= 19) by {
                lemma_digit_count_bound((n / 10) as nat);
            }
        }
        c + 1
    } else {
        1
    }
}

/// A number below `10^19` has at most 19 digits.
proof fn lemma_digit_count_bound(n: nat)
    requires
        n <= u64::MAX / 10,
    ensures
        digits_of(n).len() <= 19,
{
    reveal_with_fuel(pow10, 20);
    assert(pow10(19) == 10000000000000000000);
    lemma_digits_len_below(n, 19);
}

/// A number below `10^k` has at most `k` digits.
proof fn lemma_digits_len_below(n: nat, k: nat)
    requires
        k >= 1,
        n < pow10(k),
    ensures
        digits_of(n).len() <= k,
    decreases k,
{
    if n >= 10 {
        assert(k >= 2) by {
            if k == 1 {
                assert(pow10(1) == 10 * pow10(0));
            }
        }
        assert(pow10(k) == 10 * pow10((k - 1) as nat));
        assert(n / 10 < pow10((k - 1) as nat));
        lemma_digits_len_below(n / 10, (k - 1) as nat);
    }
}

/// Ten to the `k`.
spec fn pow10(k: nat) -> nat
    decreases k,
{
    if k == 0 {
        1
    } else {
        10 * pow10((k - 1) as nat)
    }
}

/// Append `n` in decimal, left-padded with zeros to `width` digits.
fn write_padded(out: &mut String, n: u64, width: usize)
    ensures
        final(out)@ == old(out)@ + chars_of(zero_padded(n as nat, width as nat)),
{
    let c = digit_count(n);
    let ghost start = out@;
    if c < width {
        let mut i = c;
        while i < width
            invariant
                c <= i <= width,
                out@ == start + chars_of(zeros((i - c) as nat)),
            decreases width - i,
        {
            out.append(digit_str(0));
            proof {
                lemma_chars_of_add(zeros((i - c) as nat), seq![digit_byte(0)]);
                assert(zeros((i - c) as nat) + seq![digit_byte(0)] =~= zeros((i + 1 - c) as nat));
            }
            i = i + 1;
        }
    }
    write_digits(out, n);
    proof {
        if c < width {
            lemma_chars_of_add(zeros((width - c) as nat), digits_of(n as nat));
        }
    }
}

/// Append a year at least four wide, zero-padded after any sign.
fn write_four_wide(out: &mut String, year: isize)
    requires
        year > isize::MIN,
    ensures
        final(out)@ == old(out)@ + chars_of(four_wide(year as int)),
{
    if year >= 0 {
        write_padded(out, year as u64, 4);
    } else {
        let lit = "-";
        proof {
            reveal_strlit("-");
            assert(lit@ =~= seq!['-']);
            assert(chars_of(seq![45u8]) =~= seq!['-']);
        }
        push_literal(out, lit, Ghost(45u8));
        write_padded(out, (-year) as u64, 3);
        proof {
            lemma_chars_of_add(seq![45u8], zero_padded((-year) as nat, 3));
        }
    }
}

/// Append a year as the notation prints it relative to `reference`.
fn write_year_field(out: &mut String, year: isize, reference: isize)
    requires
        year > isize::MIN,
    ensures
        final(out)@ == old(out)@ + chars_of(year_field(year as int, reference as int)),
{
    if floor_div(year, 100) == floor_div(reference, 100) {
        write_padded(out, floor_rem(year, 100) as u64, 2);
    } else {
        write_four_wide(out, year);
    }
}

impl Tenor {
    /// The canonical string, with a two-digit year inside `reference`'s century
    /// and a four-digit one outside it (`F24`, `F1999`, `1Q24`, `2HF24`, `2024`).
    pub fn format_with_reference(&self, reference: isize) -> (s: String)
        requires
            in_isize(year_of(self@)),
        ensures
            s@ == chars_of(format_bytes(self@, reference as int)),
    {
        let year = self.year();
        proof {
            assert(year > isize::MIN) by {
                crate::tenor::lemma_tenor_offset_bounds(*self);
                assert(self@.1 / self@.0.spec_per_year() >= isize::MIN) by (nonlinear_arith)
                    requires
                        self@.1 >= isize::MIN,
                        self@.0.spec_per_year() >= 1,
                ;
            }
        }
        let mut out = String::new();
        let ghost y = year_field(year as int, reference as int);
        match self.tenor_type() {
            TenorType::HalfMonth => {
                let h = match self.half0() {
                    Some(h) => h,
                    None => 0,
                };
                let m = match self.month0() {
                    Some(m) => m,
                    None => 0,
                };
                proof {
                    let p = crate::model::part_of_year(self@);
                    assert(0 <= p < 24);
                    assert(0 <= p / 2 < 12) by (nonlinear_arith)
                        requires
                            0 <= p < 24,
                    ;
                    assert(h < 2);
                    assert(m < 12);
                }
                out.append(digit_str((h + 1) as u8));
                write_letter_h(&mut out);
                out.append(month_code_str(m));
                write_year_field(&mut out, year, reference);
                proof {
                    assert(out@ =~= chars_of(seq![digit_byte(h + 1), 72u8, month_letter(m as int)] + y));
                }
            },
            TenorType::Month => {
                let m = match self.month0() {
                    Some(m) => m,
                    None => 0,
                };
                proof {
                    let p = crate::model::part_of_year(self@);
                    assert(0 <= p < 12);
                    assert(p / 1 == p);
                    assert(m < 12);
                }
                out.append(month_code_str(m));
                write_year_field(&mut out, year, reference);
                proof {
                    assert(out@ =~= chars_of(seq![month_letter(m as int)] + y));
                }
            },
            TenorType::Quarter => {
                let q = match self.quarter0() {
                    Some(q) => q,
                    None => 0,
                };
                proof {
                    assert(q < 4);
                }
                out.append(digit_str((q + 1) as u8));
                write_letter_q(&mut out);
                write_year_field(&mut out, year, reference);
                proof {
                    assert(out@ =~= chars_of(seq![digit_byte(q + 1), 81u8] + y));
                }
            },
            TenorType::HalfYear => {
                let h = match self.half_year0() {
                    Some(h) => h,
                    None => 0,
                };
                proof {
                    assert(h < 2);
                }
                out.append(digit_str((h + 1) as u8));
                write_letter_h(&mut out);
                write_year_field(&mut out, year, reference);
                proof {
                    assert(out@ =~= chars_of(seq![digit_byte(h + 1), 72u8] + y));
                }
            },
            TenorType::Year => {
                write_four_wide(&mut out, year);
                proof {
                    assert(out@ =~= chars_of(four_wide(year as int)));
                }
            },
        }
        out
    }

    /// The canonical string, with the year field relative to the current year
    /// (the clock rule): `F24` inside the current century, `F1999` outside it.
    pub fn to_string(&self) -> (s: String)
        requires
            in_isize(year_of(self@)),
        ensures
            exists|reference: int| #[trigger] clock_year(reference) && s@ == chars_of(format_bytes(self@, reference)),
    {
        let reference = current_reference_year();
        proof {
            assert(clock_year(reference as int));
        }
        self.format_with_reference(reference)
    }
}

} // verus!
