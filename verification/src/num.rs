//! Decimal text for unsigned integers: the rendering `format!("{n}")`
//! gives and the parsing `str::parse::<u64>` accepts.

use vstd::prelude::*;

use crate::text::{chars_of, is_digit};

verus! {

/// The digit character for `d < 10`.
pub open spec fn digit_char(d: nat) -> char {
    (('0' as u32) + d) as char
}

/// The decimal rendering of `n`: no sign, no leading zeros.
pub open spec fn decimal(n: nat) -> Seq<char>
    decreases n,
{
    if n < 10 {
        seq![digit_char(n)]
    } else {
        decimal(n / 10).push(digit_char(n % 10))
    }
}

/// The value of a sequence of decimal digits.
pub open spec fn digits_value(s: Seq<char>) -> nat
    decreases s.len(),
{
    if s.len() == 0 {
        0
    } else {
        digits_value(s.drop_last()) * 10 + ((s.last() as u32) - ('0' as u32)) as nat
    }
}

/// Whether every character of `s` is a decimal digit.
pub open spec fn all_digits(s: Seq<char>) -> bool {
    forall|i: int| 0 <= i < s.len() ==> is_digit(#[trigger] s[i])
}

/// The digits after an optional leading `+`.
pub open spec fn unsigned_body(s: Seq<char>) -> Seq<char> {
    if s.len() > 0 && s[0] == '+' {
        s.drop_first()
    } else {
        s
    }
}

/// The value `str::parse::<u64>` gives for `s`: an optional `+`, then
/// one or more decimal digits, whose value fits in 64 bits.
pub open spec fn parse_u64_spec(s: Seq<char>) -> Option<u64> {
    let b = unsigned_body(s);
    if b.len() > 0 && all_digits(b) && digits_value(b) <= u64::MAX {
        Some(digits_value(b) as u64)
    } else {
        None
    }
}

proof fn lemma_digits_value_push(s: Seq<char>, c: char)
    ensures
        digits_value(s.push(c)) == digits_value(s) * 10 + ((c as u32) - ('0' as u32)) as nat,
{
    assert(s.push(c).drop_last() =~= s);
}

/// Parse the decimal text `s` as `str::parse::<u64>` does.
pub fn parse_u64(s: &str) -> (r: Option<u64>)
    ensures
        r == parse_u64_spec(s@),
{
    let cs = chars_of(s);
    let mut start: usize = 0;
    if cs.len() > 0 && cs[0] == '+' {
        start = 1;
    }
    let ghost b = unsigned_body(s@);
    assert(b =~= s@.subrange(start as int, s@.len() as int));
    if start >= cs.len() {
        return None;
    }
    let mut value: u64 = 0;
    let mut i: usize = start;
    while i < cs.len()
        invariant
            cs@ == s@,
            start <= i <= cs.len(),
            b == s@.subrange(start as int, s@.len() as int),
            b == unsigned_body(s@),
            all_digits(b.take(i - start)),
            value == digits_value(b.take(i - start)),
        decreases cs.len() - i,
    {
        let c = cs[i];
        assert(b[(i - start) as int] == c);
        if !('0' <= c && c <= '9') {
            assert(!is_digit(b[(i - start) as int]));
            assert(!all_digits(b));
            return None;
        }
        proof {
            assert(b.take(i - start + 1) =~= b.take(i - start).push(c));
            lemma_digits_value_push(b.take(i - start), c);
        }
        let d = (c as u32 - '0' as u32) as u64;
        if value > (u64::MAX - d) / 10 {
            proof {
                let m = (u64::MAX - d) as int;
                let v = value as int;
                assert(v * 10 + d > u64::MAX) by (nonlinear_arith)
                    requires
                        v > m / 10,
                        m == u64::MAX - d,
                        0 <= d < 10,
                ;
                assert(all_digits(b.take(i - start + 1)));
                lemma_prefix_value_bound(b, (i - start + 1) as int);
            }
            return None;
        }
        value = value * 10 + d;
        i = i + 1;
    }
    assert(b.take(b.len() as int) =~= b);
    Some(value)
}

/// The value of a digit string is at least the value of any prefix.
proof fn lemma_prefix_value_bound(b: Seq<char>, k: int)
    requires
        0 <= k <= b.len(),
        all_digits(b.take(k)),
    ensures
        all_digits(b) ==> digits_value(b.take(k)) <= digits_value(b),
    decreases b.len() - k,
{
    if k < b.len() && all_digits(b) {
        assert(b.take(k + 1) =~= b.take(k).push(b[k]));
        lemma_digits_value_push(b.take(k), b[k]);
        lemma_prefix_value_bound(b, k + 1);
    } else if k == b.len() {
        assert(b.take(k) =~= b);
    }
}

/// The decimal rendering of `n`, as `format!("{n}")` writes it.
pub fn decimal_text(n: u64) -> (s: String)
    ensures
        s@ == decimal(n as nat),
    decreases n,
{
    let d = n % 10;
    let c = char_of_digit(d);
    if n < 10 {
        let mut s = String::new();
        crate::text::push_char(&mut s, c);
        assert(s@ =~= decimal(n as nat));
        s
    } else {
        let mut s = decimal_text(n / 10);
        crate::text::push_char(&mut s, c);
        s
    }
}

/// The digit character for `d`.
fn char_of_digit(d: u64) -> (c: char)
    requires
        d < 10,
    ensures
        c == digit_char(d as nat),
{
    if d == 0 {
        '0'
    } else if d == 1 {
        '1'
    } else if d == 2 {
        '2'
    } else if d == 3 {
        '3'
    } else if d == 4 {
        '4'
    } else if d == 5 {
        '5'
    } else if d == 6 {
        '6'
    } else if d == 7 {
        '7'
    } else if d == 8 {
        '8'
    } else {
        '9'
    }
}

/// The decimal rendering of `n` is a non-empty run of digits whose
/// value is `n`.
pub proof fn lemma_decimal_digits(n: nat)
    ensures
        decimal(n).len() > 0,
        all_digits(decimal(n)),
        digits_value(decimal(n)) == n,
    decreases n,
{
    if n < 10 {
        let c = digit_char(n);
        assert(c as u32 == '0' as u32 + n);
        assert(seq![c].drop_last() =~= Seq::<char>::empty());
        assert(digits_value(Seq::<char>::empty()) == 0);
        assert(seq![c].last() == c);
        assert(digits_value(seq![c]) == digits_value(seq![c].drop_last()) * 10 + ((c as u32) - ('0' as u32)) as nat);
        assert(digits_value(seq![c]) == n);
    } else {
        lemma_decimal_digits(n / 10);
        let d = decimal(n / 10);
        let c = digit_char(n % 10);
        assert(c as u32 == '0' as u32 + n % 10);
        lemma_digits_value_push(d, c);
        assert((n / 10) * 10 + n % 10 == n) by (nonlinear_arith);
        assert forall|i: int| 0 <= i < d.push(c).len() implies is_digit(#[trigger] d.push(c)[i]) by {
            if i < d.len() {
                assert(d.push(c)[i] == d[i]);
            }
        }
    }
}

/// `k` zeros.
pub open spec fn zeros(k: nat) -> Seq<char> {
    Seq::new(k, |i: int| '0')
}

/// Leading zeros do not change the value of a run of digits.
pub proof fn lemma_leading_zeros(k: nat, s: Seq<char>)
    ensures
        digits_value(zeros(k) + s) == digits_value(s),
    decreases s.len(), k,
{
    if s.len() == 0 {
        assert(zeros(k) + s =~= zeros(k));
        if k > 0 {
            assert(zeros(k).drop_last() =~= zeros((k - 1) as nat));
            lemma_leading_zeros((k - 1) as nat, s);
            assert(zeros((k - 1) as nat) + s =~= zeros((k - 1) as nat));
        }
    } else {
        assert((zeros(k) + s).drop_last() =~= zeros(k) + s.drop_last());
        assert((zeros(k) + s).last() == s.last());
        lemma_leading_zeros(k, s.drop_last());
    }
}

/// `str::parse::<u64>` reads the decimal rendering of `n`, after any
/// number of leading zeros, back as `n`.
pub proof fn lemma_parse_padded_decimal(k: nat, n: u64)
    ensures
        parse_u64_spec(zeros(k) + decimal(n as nat)) == Some(n),
{
    lemma_decimal_digits(n as nat);
    lemma_leading_zeros(k, decimal(n as nat));
    let s = zeros(k) + decimal(n as nat);
    assert(s.len() > 0);
    assert(s[0] != '+') by {
        if k > 0 {
            assert(s[0] == '0');
        } else {
            assert(s[0] == decimal(n as nat)[0]);
        }
    }
    assert(unsigned_body(s) == s);
    assert forall|i: int| 0 <= i < s.len() implies is_digit(#[trigger] s[i]) by {
        if i < k {
            assert(s[i] == '0');
        } else {
            assert(s[i] == decimal(n as nat)[i - k]);
        }
    }
}

} // verus!
