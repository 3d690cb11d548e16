use vstd::prelude::*;
use crate::number::{
    all_digits, digit_value, digits_value, is_digit, lemma_digits_value_prefix, lemma_nat_text,
    nat_text, push_nat_text, unsigned_body,
};

verus! {

/// An exact non-negative decimal number: `mantissa / 10^scale`.
///
/// Potion weights are kept in this form, so that a weight read from a table is
/// written back with the very digits it was read with.
#[derive(Debug, Clone, Copy, PartialEq, Eq, Structural)]
pub struct Decimal {
    pub mantissa: u64,
    /// Number of digits after the decimal point.
    pub scale: u32,
}

/// `k` splits `b` into an integer part of digits and, when `k < b.len()`, a dot
/// followed by a fraction part of digits.
pub open spec fn dot_split(b: Seq<char>, k: int) -> bool {
    &&& 0 <= k <= b.len()
    &&& all_digits(b.take(k))
    &&& k < b.len() ==> b[k] == '.' && all_digits(b.skip(k + 1))
}

pub open spec fn fraction_of(b: Seq<char>, k: int) -> Seq<char> {
    if k < b.len() {
        b.skip(k + 1)
    } else {
        Seq::empty()
    }
}

/// The decimal that a text denotes: an optional `+`, digits, and optionally a
/// dot and more digits, with at least one digit in all; the digits together
/// must fit in 64 bits.
pub open spec fn decimal_of_text(s: Seq<char>) -> Option<Decimal> {
    let b = unsigned_body(s);
    if exists|k: int| dot_split(b, k) {
        let k = choose|k: int| dot_split(b, k);
        let digits = b.take(k) + fraction_of(b, k);
        if digits.len() > 0 && digits_value(digits) <= u64::MAX && fraction_of(b, k).len()
            <= u32::MAX {
            Some(Decimal { mantissa: digits_value(digits) as u64, scale: fraction_of(b, k).len() as u32 })
        } else {
            None
        }
    } else {
        None
    }
}

pub open spec fn zeros(n: nat) -> Seq<char> {
    Seq::new(n, |i: int| '0')
}

/// The text of a decimal: the digits of the mantissa, padded with leading zeros
/// to at least one digit more than the scale, with a dot before the last
/// `scale` digits when the scale is not zero.
pub open spec fn decimal_text(d: Decimal) -> Seq<char> {
    let m = nat_text(d.mantissa as nat);
    if d.scale == 0 {
        m
    } else if m.len() <= d.scale {
        seq!['0', '.'] + zeros((d.scale - m.len()) as nat) + m
    } else {
        let k = m.len() - d.scale;
        m.take(k) + seq!['.'] + m.skip(k)
    }
}

proof fn lemma_dot_split_unique(b: Seq<char>, k1: int, k2: int)
    requires
        dot_split(b, k1),
        dot_split(b, k2),
    ensures
        k1 == k2,
{
    if k1 < k2 {
        assert(b.take(k2)[k1] == b[k1]);
        assert(!is_digit(b[k1]));
    } else if k2 < k1 {
        assert(b.take(k1)[k2] == b[k2]);
        assert(!is_digit(b[k2]));
    }
}

proof fn lemma_leading_zeros(z: Seq<char>, s: Seq<char>)
    requires
        forall|i: int| 0 <= i < z.len() ==> z[i] == '0',
    ensures
        digits_value(z + s) == digits_value(s),
    decreases z.len() + s.len(),
{
    if s.len() == 0 {
        assert(z + s =~= z);
        if z.len() > 0 {
            lemma_leading_zeros(z.drop_last(), s);
            assert(z.drop_last() + s =~= z.drop_last());
        }
    } else {
        lemma_leading_zeros(z, s.drop_last());
        assert((z + s).drop_last() =~= z + s.drop_last());
    }
}

/// Writing a decimal and reading it back gives the same decimal.
pub proof fn lemma_decimal_round_trip(d: Decimal)
    ensures
        decimal_of_text(decimal_text(d)) == Some(d),
{
    let m = nat_text(d.mantissa as nat);
    lemma_nat_text(d.mantissa as nat);
    let t = decimal_text(d);
    assert(unsigned_body(t) == t);
    if d.scale == 0 {
        let k = t.len() as int;
        assert(t.take(k) =~= t);
        assert(dot_split(t, k));
        let kc = choose|k: int| dot_split(t, k);
        lemma_dot_split_unique(t, k, kc);
        assert(t.take(k) + fraction_of(t, k) =~= m);
    } else if m.len() <= d.scale {
        let z = zeros((d.scale - m.len()) as nat);
        let k = 1int;
        assert(t.take(k) =~= seq!['0']);
        assert(t.skip(k + 1) =~= z + m);
        assert forall|i: int| 0 <= i < t.skip(k + 1).len() implies is_digit(
            #[trigger] t.skip(k + 1)[i],
        ) by {
            if i < z.len() {
                assert(t.skip(k + 1)[i] == z[i]);
            } else {
                assert(t.skip(k + 1)[i] == m[i - z.len()]);
            }
        }
        assert(dot_split(t, k));
        let kc = choose|k: int| dot_split(t, k);
        lemma_dot_split_unique(t, k, kc);
        let digits = t.take(k) + fraction_of(t, k);
        assert(digits =~= (seq!['0'] + z) + m);
        lemma_leading_zeros(seq!['0'] + z, m);
    } else {
        let k = m.len() - d.scale;
        assert(t.take(k) =~= m.take(k));
        assert(t.skip(k + 1) =~= m.skip(k));
        assert forall|i: int| 0 <= i < k implies is_digit(#[trigger] t.take(k)[i]) by {
            assert(t.take(k)[i] == m[i]);
        }
        assert forall|i: int| 0 <= i < t.skip(k + 1).len() implies is_digit(
            #[trigger] t.skip(k + 1)[i],
        ) by {
            assert(t.skip(k + 1)[i] == m[i + k]);
        }
        assert(dot_split(t, k));
        let kc = choose|k: int| dot_split(t, k);
        lemma_dot_split_unique(t, k, kc);
        let digits = t.take(k) + fraction_of(t, k);
        assert(digits =~= m);
    }
}

impl Decimal {
    /// Reads a decimal from its text.
    pub fn parse(s: &str) -> (r: Option<Decimal>)
        ensures
            r == decimal_of_text(s@),
    {
        let n = s.unicode_len();
        let mut i: usize = 0;
        if n > 0 && s.get_char(0) == '+' {
            i = 1;
        }
        let start = i;
        let ghost b = unsigned_body(s@);
        assert(b =~= s@.skip(start as int));
        let mut acc: u64 = 0;
        let mut dot: Option<usize> = None;
        while i < n
            invariant
                start <= i <= n,
                n == s@.len(),
                b == s@.skip(start as int),
                b == unsigned_body(s@),
                dot matches None ==> all_digits(b.take(i - start)) && acc == digits_value(
                    b.take(i - start),
                ),
                dot matches Some(k) ==> start <= k < i && b[k - start] == '.' && all_digits(
                    b.take(k - start),
                ) && all_digits(b.subrange(k - start + 1, i - start)) && acc == digits_value(
                    b.take(k - start) + b.subrange(k - start + 1, i - start),
                ),
            decreases n - i,
        {
            let c = s.get_char(i);
            let ghost j = i - start;
            assert(b[j] == c);
            if c == '.' && dot.is_none() {
                proof {
                    assert(b.take(j) + b.subrange(j + 1, j + 1) =~= b.take(j));
                }
                dot = Some(i);
                i = i + 1;
            } else if '0' <= c && c <= '9' {
                let d = (c as u32 - '0' as u32) as u64;
                let ghost prev = acc;
                let ghost all: Seq<char> = match dot {
                    None => b.take(j + 1),
                    Some(k) => b.take(k - start) + b.subrange(k - start + 1, j + 1),
                };
                proof {
                    match dot {
                        None => {
                            assert(all.drop_last() =~= b.take(j));
                        },
                        Some(k) => {
                            assert(all.drop_last() =~= b.take(k - start) + b.subrange(
                                k - start + 1,
                                j,
                            ));
                            assert(b.subrange(k - start + 1, j + 1).drop_last() =~= b.subrange(
                                k - start + 1,
                                j,
                            ));
                        },
                    }
                    assert(all.last() == c);
                    assert(digits_value(all) == prev * 10 + digit_value(c));
                }
                if acc > (u64::MAX - d) / 10 {
                    proof {
                        assert(digits_value(all) > u64::MAX) by (nonlinear_arith)
                            requires
                                prev > (u64::MAX - d) / 10,
                                digits_value(all) == prev * 10 + d,
                                d <= 9,
                        ;
                        lemma_no_decimal_overflow(s@, b, start as int, dot, j, all);
                    }
                    return None;
                }
                acc = acc * 10 + d;
                i = i + 1;
                proof {
                    match dot {
                        None => {
                            assert(b.take(j + 1).drop_last() =~= b.take(j));
                        },
                        Some(k) => {
                            assert(b.subrange(k - start + 1, j + 1).drop_last() =~= b.subrange(
                                k - start + 1,
                                j,
                            ));
                        },
                    }
                }
            } else {
                proof {
                    lemma_bad_char(s@, b, start as int, dot, j);
                }
                return None;
            }
        }
        let ghost len = n - start;
        match dot {
            None => {
                proof {
                    assert(b.take(len) =~= b);
                    assert(dot_split(b, len));
                    let kc = choose|k: int| dot_split(b, k);
                    lemma_dot_split_unique(b, len, kc);
                    assert(b.take(len) + fraction_of(b, len) =~= b);
                }
                if n == start {
                    return None;
                }
                Some(Decimal { mantissa: acc, scale: 0 })
            },
            Some(k) => {
                let ghost kk = k - start;
                proof {
                    assert(b.subrange(kk + 1, len) =~= b.skip(kk + 1));
                    assert(dot_split(b, kk));
                    let kc = choose|k: int| dot_split(b, k);
                    lemma_dot_split_unique(b, kk, kc);
                }
                let frac = n - k - 1;
                if frac > u32::MAX as usize || (k == start && frac == 0) {
                    proof {
                        assert((b.take(kk) + fraction_of(b, kk)).len() == kk + (len - kk - 1));
                    }
                    return None;
                }
                Some(Decimal { mantissa: acc, scale: frac as u32 })
            },
        }
    }

    /// The text of this decimal, read back by `parse`.
    pub fn to_text(&self) -> (r: String)
        ensures
            r@ == decimal_text(*self),
    {
        let mut m = String::new();
        push_nat_text(&mut m, self.mantissa);
        assert(m@ =~= nat_text(self.mantissa as nat));
        if self.scale == 0 {
            return m;
        }
        let len = m.as_str().unicode_len();
        let scale = self.scale as usize;
        let mut out = String::new();
        if len <= scale {
            proof {
                reveal_strlit("0.");
                reveal_strlit("0");
            }
            out.append("0.");
            let mut i: usize = 0;
            while i < scale - len
                invariant
                    i <= scale - len,
                    out@ == seq!['0', '.'] + zeros(i as nat),
                decreases scale - len - i,
            {
                proof {
                    reveal_strlit("0");
                }
                out.append("0");
                i = i + 1;
                assert(out@ =~= seq!['0', '.'] + zeros(i as nat));
            }
            out.append(m.as_str());
        } else {
            proof {
                reveal_strlit(".");
            }
            let k = len - scale;
            out.append(m.as_str().substring_char(0, k));
            out.append(".");
            out.append(m.as_str().substring_char(k, len));
            assert(m@.subrange(k as int, len as int) =~= m@.skip(k as int));
            assert(m@.subrange(0, k as int) =~= m@.take(k as int));
        }
        assert(out@ =~= decimal_text(*self));
        out
    }
}

proof fn lemma_bad_char(s: Seq<char>, b: Seq<char>, start: int, dot: Option<usize>, j: int)
    requires
        b == unsigned_body(s),
        0 <= j < b.len(),
        !is_digit(b[j]),
        b[j] != '.' || dot is Some,
        dot matches Some(k) ==> 0 <= k - start < j && b[k - start] == '.',
    ensures
        decimal_of_text(s) is None,
{
    if exists|k: int| dot_split(b, k) {
        let k = choose|k: int| dot_split(b, k);
        if j < k {
            assert(b.take(k)[j] == b[j]);
        } else if j == k {
            match dot {
                Some(k0) => {
                    assert(b.take(k)[k0 - start] == b[k0 - start]);
                },
                None => {},
            }
        } else {
            assert(b.skip(k + 1)[j - k - 1] == b[j]);
        }
    }
}

proof fn lemma_no_decimal_overflow(
    s: Seq<char>,
    b: Seq<char>,
    start: int,
    dot: Option<usize>,
    j: int,
    all: Seq<char>,
)
    requires
        b == unsigned_body(s),
        0 <= j < b.len(),
        digits_value(all) > u64::MAX,
        dot matches None ==> all == b.take(j + 1) && all_digits(b.take(j)) && is_digit(b[j]),
        dot matches Some(k) ==> 0 <= k - start < j && b[k - start] == '.' && all_digits(
            b.take(k - start),
        ) && all == b.take(k - start) + b.subrange(k - start + 1, j + 1),
    ensures
        decimal_of_text(s) is None,
{
    if exists|k: int| dot_split(b, k) {
        let k = choose|k: int| dot_split(b, k);
        let digits = b.take(k) + fraction_of(b, k);
        match dot {
            None => {
                if k < j {
                    assert(b.take(j)[k] == b[k]);
                } else if k == j {
                } else {
                    assert(digits.take(j + 1) =~= all);
                    lemma_digits_value_prefix(digits, j + 1);
                }
            },
            Some(k0) => {
                let kk = k0 - start;
                if k != kk {
                    if k < kk {
                        assert(b.take(kk)[k] == b[k]);
                    } else {
                        assert(b.take(k)[kk] == b[kk]);
                    }
                } else {
                    assert(digits.take(all.len() as int) =~= all);
                    lemma_digits_value_prefix(digits, all.len() as int);
                }
            },
        }
    }
}

} // verus!
