use vstd::prelude::*;

verus! {

/// Whether `c` is one of the ASCII digits.
pub open spec fn is_digit(c: char) -> bool {
    '0' <= c && c <= '9'
}

pub open spec fn digit_value(c: char) -> nat {
    (c as nat - '0' as nat) as nat
}

pub open spec fn all_digits(s: Seq<char>) -> bool {
    forall|i: int| 0 <= i < s.len() ==> is_digit(#[trigger] s[i])
}

/// The number that a run of decimal digits denotes, most significant first.
pub open spec fn digits_value(s: Seq<char>) -> nat
    decreases s.len(),
{
    if s.len() == 0 {
        0
    } else {
        digits_value(s.drop_last()) * 10 + digit_value(s.last())
    }
}

/// What is left of `s` once one optional leading `+` is removed.
pub open spec fn unsigned_body(s: Seq<char>) -> Seq<char> {
    if s.len() > 0 && s[0] == '+' {
        s.drop_first()
    } else {
        s
    }
}

/// The unsigned 32-bit integer that a text denotes: an optional `+` and one or
/// more decimal digits whose value fits.
pub open spec fn u32_of_text(s: Seq<char>) -> Option<u32> {
    let b = unsigned_body(s);
    if b.len() > 0 && all_digits(b) && digits_value(b) <= u32::MAX {
        Some(digits_value(b) as u32)
    } else {
        None
    }
}

/// The signed 32-bit integer that a text denotes: an optional `+` or `-` and one
/// or more decimal digits whose signed value fits.
pub open spec fn i32_of_text(s: Seq<char>) -> Option<i32> {
    if s.len() > 0 && s[0] == '-' {
        let b = s.drop_first();
        if b.len() > 0 && all_digits(b) && digits_value(b) <= 0x8000_0000 {
            Some((0 - digits_value(b)) as i32)
        } else {
            None
        }
    } else {
        let b = unsigned_body(s);
        if b.len() > 0 && all_digits(b) && digits_value(b) <= i32::MAX {
            Some(digits_value(b) as i32)
        } else {
            None
        }
    }
}

/// The shortest decimal text of a natural number.
pub open spec fn nat_text(n: nat) -> Seq<char>
    decreases n,
{
    if n < 10 {
        seq![digit_char(n)]
    } else {
        nat_text(n / 10).push(digit_char(n % 10))
    }
}

pub open spec fn digit_char(d: nat) -> char {
    ('0' as nat + d) as char
}

/// The decimal text of a signed integer, with a `-` before a negative one.
pub open spec fn int_text(n: int) -> Seq<char> {
    if n < 0 {
        seq!['-'] + nat_text((0 - n) as nat)
    } else {
        nat_text(n as nat)
    }
}

pub proof fn lemma_digits_value_prefix(s: Seq<char>, i: int)
    requires
        0 <= i <= s.len(),
    ensures
        digits_value(s.take(i)) <= digits_value(s),
    decreases s.len() - i,
{
    if i < s.len() {
        lemma_digits_value_prefix(s, i + 1);
        assert(s.take(i + 1).drop_last() =~= s.take(i));
    } else {
        assert(s.take(i) =~= s);
    }
}

pub proof fn lemma_digit_char(d: nat)
    requires
        d < 10,
    ensures
        is_digit(digit_char(d)),
        digit_value(digit_char(d)) == d,
{
    assert(('0' as nat + d) as char as nat == '0' as nat + d);
}

pub proof fn lemma_nat_text(n: nat)
    ensures
        nat_text(n).len() > 0,
        all_digits(nat_text(n)),
        digits_value(nat_text(n)) == n,
        nat_text(n)[0] != '+' && nat_text(n)[0] != '-',
    decreases n,
{
    if n < 10 {
        assert(nat_text(n).drop_last() =~= Seq::<char>::empty());
        assert(digits_value(Seq::<char>::empty()) == 0);
        lemma_digit_char(n);
    } else {
        lemma_nat_text(n / 10);
        lemma_digit_char(n % 10);
        let t = nat_text(n);
        assert(t.drop_last() =~= nat_text(n / 10));
        assert(t.last() == digit_char(n % 10));
        assert(digits_value(t) == digits_value(t.drop_last()) * 10 + digit_value(t.last()));
        assert(n == (n / 10) * 10 + n % 10);
    }
}

/// Reads an unsigned 32-bit integer as `str::parse` does.
pub fn parse_u32(s: &str) -> (r: Option<u32>)
    ensures
        r == u32_of_text(s@),
{
    let n = s.unicode_len();
    let mut i: usize = 0;
    if n > 0 && s.get_char(0) == '+' {
        i = 1;
    }
    let start = i;
    let ghost b = unsigned_body(s@);
    assert(b =~= s@.skip(start as int));
    if i == n {
        return None;
    }
    let mut acc: u64 = 0;
    while i < n
        invariant
            start <= i <= n,
            n == s@.len(),
            b == s@.skip(start as int),
            b == unsigned_body(s@),
            all_digits(b.take(i - start)),
            acc == digits_value(b.take(i - start)),
            acc <= u32::MAX,
        decreases n - i,
    {
        let c = s.get_char(i);
        proof {
            assert(b.take(i - start + 1).drop_last() =~= b.take(i - start));
            assert(b[i - start] == c);
        }
        if c < '0' || c > '9' {
            proof {
                assert(!is_digit(b[i - start]));
            }
            return None;
        }
        let d = (c as u32 - '0' as u32) as u64;
        acc = acc * 10 + d;
        i = i + 1;
        if acc > u32::MAX as u64 {
            proof {
                lemma_digits_value_prefix(b, i - start);
            }
            return None;
        }
    }
    assert(b.take(i - start) =~= b);
    Some(acc as u32)
}

/// Reads a signed 32-bit integer as `str::parse` does.
pub fn parse_i32(s: &str) -> (r: Option<i32>)
    ensures
        r == i32_of_text(s@),
{
    let n = s.unicode_len();
    let negative = n > 0 && s.get_char(0) == '-';
    let mut i: usize = 0;
    if n > 0 && (s.get_char(0) == '+' || negative) {
        i = 1;
    }
    let start = i;
    let ghost b = s@.skip(start as int);
    proof {
        if negative {
            assert(b =~= s@.drop_first());
        } else {
            assert(b =~= unsigned_body(s@));
        }
    }
    if i == n {
        return None;
    }
    let limit: u64 = if negative { 0x8000_0000 } else { 0x7fff_ffff };
    let mut acc: u64 = 0;
    while i < n
        invariant
            start <= i <= n,
            n == s@.len(),
            b == s@.skip(start as int),
            negative ==> b == s@.drop_first() && s@[0] == '-',
            !negative ==> b == unsigned_body(s@) && !(s@.len() > 0 && s@[0] == '-'),
            limit == if negative { 0x8000_0000u64 } else { 0x7fff_ffffu64 },
            all_digits(b.take(i - start)),
            acc == digits_value(b.take(i - start)),
            acc <= limit,
        decreases n - i,
    {
        let c = s.get_char(i);
        proof {
            assert(b.take(i - start + 1).drop_last() =~= b.take(i - start));
            assert(b[i - start] == c);
        }
        if c < '0' || c > '9' {
            proof {
                assert(!is_digit(b[i - start]));
            }
            return None;
        }
        let d = (c as u32 - '0' as u32) as u64;
        acc = acc * 10 + d;
        i = i + 1;
        if acc > limit {
            proof {
                lemma_digits_value_prefix(b, i - start);
            }
            return None;
        }
    }
    assert(b.take(i - start) =~= b);
    if negative {
        Some((0 - acc as i64) as i32)
    } else {
        Some(acc as i32)
    }
}

/// The text of one decimal digit.
fn digit_str(d: u64) -> (r: &'static str)
    requires
        d < 10,
    ensures
        r@ == seq![digit_char(d as nat)],
{
    proof {
        reveal_strlit("0");
        reveal_strlit("1");
        reveal_strlit("2");
        reveal_strlit("3");
        reveal_strlit("4");
        reveal_strlit("5");
        reveal_strlit("6");
        reveal_strlit("7");
        reveal_strlit("8");
        reveal_strlit("9");
    }
    match d {
        0 => "0",
        1 => "1",
        2 => "2",
        3 => "3",
        4 => "4",
        5 => "5",
        6 => "6",
        7 => "7",
        8 => "8",
        _ => "9",
    }
}

/// Appends the shortest decimal text of `n` to `out`.
pub fn push_nat_text(out: &mut String, n: u64)
    ensures
        final(out)@ == old(out)@ + nat_text(n as nat),
    decreases n,
{
    if n >= 10 {
        push_nat_text(out, n / 10);
    }
    out.append(digit_str(n % 10));
    proof {
        if n < 10 {
            assert(old(out)@ + nat_text(n as nat) =~= old(out)@ + seq![digit_char(n as nat)]);
        } else {
            assert(nat_text(n as nat) == nat_text((n / 10) as nat).push(digit_char((n % 10) as nat)));
            assert(final(out)@ =~= old(out)@ + nat_text(n as nat));
        }
    }
}

/// The decimal text of an unsigned integer, as `to_string` writes it.
pub fn u32_text(n: u32) -> (r: String)
    ensures
        r@ == nat_text(n as nat),
{
    let mut out = String::new();
    push_nat_text(&mut out, n as u64);
    assert(out@ =~= nat_text(n as nat));
    out
}

/// The decimal text of a signed integer, as `to_string` writes it.
pub fn i32_text(n: i32) -> (r: String)
    ensures
        r@ == int_text(n as int),
{
    let mut out = String::new();
    if n < 0 {
        proof {
            reveal_strlit("-");
        }
        out.append("-");
        push_nat_text(&mut out, (0 - n as i64) as u64);
    } else {
        push_nat_text(&mut out, n as u64);
    }
    assert(out@ =~= int_text(n as int));
    out
}

/// Writing an unsigned integer and reading it back gives the same integer.
pub proof fn lemma_u32_round_trip(n: u32)
    ensures
        u32_of_text(nat_text(n as nat)) == Some(n),
{
    lemma_nat_text(n as nat);
    assert(unsigned_body(nat_text(n as nat)) == nat_text(n as nat));
}

/// Writing a signed integer and reading it back gives the same integer.
pub proof fn lemma_i32_round_trip(n: i32)
    ensures
        i32_of_text(int_text(n as int)) == Some(n),
{
    if n < 0 {
        let t = nat_text((0 - n) as nat);
        lemma_nat_text((0 - n) as nat);
        assert((seq!['-'] + t).drop_first() =~= t);
    } else {
        lemma_nat_text(n as nat);
        assert(unsigned_body(nat_text(n as nat)) == nat_text(n as nat));
    }
}

} // verus!
