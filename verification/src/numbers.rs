//! Decimal numbers and clock times as text.

use vstd::prelude::*;
use crate::calendar::Moment;
use crate::text::{push_str, string_of};

verus! {

broadcast use vstd::string::group_string_axioms;

/// The ASCII digit for `d < 10`.
pub open spec fn digit(d: int) -> char {
    (48 + d) as char
}

/// A decimal digit character.
pub open spec fn is_digit(c: char) -> bool {
    48 <= (c as int) <= 57
}

/// Decimal notation of `n`, without leading zeros.
pub open spec fn decimal(n: nat) -> Seq<char>
    decreases n,
{
    if n < 10 {
        seq![digit(n as int)]
    } else {
        decimal(n / 10).push(digit((n % 10) as int))
    }
}

/// Value of a string of decimal digits (0 for the empty string).
pub open spec fn digits_value(s: Seq<char>) -> nat
    decreases s.len(),
{
    if s.len() == 0 {
        0
    } else {
        digits_value(s.drop_last()) * 10 + ((s.last() as int - 48) as nat)
    }
}

/// Every character is a decimal digit.
pub open spec fn all_digits(s: Seq<char>) -> bool {
    forall|i: int| 0 <= i < s.len() ==> is_digit(#[trigger] s[i])
}

/// `s` without a leading `+`.
pub open spec fn sign_dropped(s: Seq<char>) -> Seq<char> {
    if s.len() > 0 && s[0] == '+' {
        s.drop_first()
    } else {
        s
    }
}

/// What std's `str::parse::<u64>` accepts: an optional `+`, then one or
/// more decimal digits whose value fits in 64 bits.
pub open spec fn parsed_u64(s: Seq<char>) -> Option<u64> {
    let d = sign_dropped(s);
    if d.len() > 0 && all_digits(d) && digits_value(d) <= u64::MAX {
        Some(digits_value(d) as u64)
    } else {
        None
    }
}

/// Appends the decimal notation of `n`.
pub fn push_decimal(out: &mut Vec<char>, n: u64)
    ensures
        final(out)@ == old(out)@ + decimal(n as nat),
    decreases n,
{
    if n >= 10 {
        push_decimal(out, n / 10);
    }
    let d = (n % 10) as u8;
    out.push((48 + d) as char);
    proof {
        if n >= 10 {
            assert(decimal(n as nat) == decimal((n / 10) as nat).push(digit((n % 10) as int)));
        }
    }
}

/// Decimal notation of `n` (std's `to_string`).
pub fn decimal_string(n: u64) -> (r: String)
    ensures
        r@ == decimal(n as nat),
{
    let mut out: Vec<char> = Vec::new();
    push_decimal(&mut out, n);
    assert(out@ =~= decimal(n as nat));
    string_of(&out)
}

proof fn lemma_digits_value_mono(s: Seq<char>, i: int, j: int)
    requires
        0 <= i <= j <= s.len(),
    ensures
        digits_value(s.take(i)) <= digits_value(s.take(j)),
    decreases j - i,
{
    if i < j {
        lemma_digits_value_mono(s, i, j - 1);
        assert(s.take(j).drop_last() =~= s.take(j - 1));
    }
}

/// std's `str::parse::<u64>`, as `Option`.
pub fn parse_u64(s: &str) -> (r: Option<u64>)
    ensures
        r == parsed_u64(s@),
{
    let cs = crate::text::chars_of(s);
    let mut i: usize = 0;
    if cs.len() > 0 && cs[0] == '+' {
        i = 1;
    }
    let ghost d = sign_dropped(s@);
    let start = i;
    assert(d =~= cs@.skip(start as int));
    if start == cs.len() {
        return None;
    }
    let mut acc: u64 = 0;
    assert(d.take(0) =~= Seq::<char>::empty());
    while i < cs.len()
        invariant
            cs@ == s@,
            start <= i <= cs@.len(),
            start == 0 || start == 1,
            d == cs@.skip(start as int),
            d == sign_dropped(s@),
            all_digits(d.take(i - start)),
            acc == digits_value(d.take(i - start)),
        decreases cs.len() - i,
    {
        let c = cs[i];
        let k = i - start;
        assert(d[k as int] == c);
        if !('0' <= c && c <= '9') {
            assert(!is_digit(d[k as int]));
            return None;
        }
        assert(d.take(k + 1).drop_last() =~= d.take(k as int));
        assert(d.take(k + 1).last() == c);
        let dv = ((c as u32) - 48) as u64;
        assert(digits_value(d.take(k + 1)) == acc * 10 + dv);
        match acc.checked_mul(10) {
            Some(m) => match m.checked_add(dv) {
                Some(v) => {
                    acc = v;
                    assert forall|j: int| 0 <= j < k + 1 implies is_digit(#[trigger] d.take(k + 1)[j]) by {
                        if j < k {
                            assert(d.take(k + 1)[j] == d.take(k as int)[j]);
                        }
                    }
                },
                None => {
                    proof {
                        lemma_digits_value_mono(d, k + 1, d.len() as int);
                        assert(d.take(d.len() as int) =~= d);
                    }
                    return None;
                },
            },
            None => {
                proof {
                    lemma_digits_value_mono(d, k + 1, d.len() as int);
                    assert(d.take(d.len() as int) =~= d);
                }
                return None;
            },
        }
        i = i + 1;
    }
    assert(d.take(i - start) =~= d);
    Some(acc)
}

pub proof fn lemma_decimal_digits(n: nat)
    ensures
        all_digits(decimal(n)),
        digits_value(decimal(n)) == n,
        decimal(n).len() > 0,
        decimal(n)[0] != '+',
    decreases n,
{
    if n >= 10 {
        lemma_decimal_digits(n / 10);
        let s = decimal(n);
        assert(s.drop_last() =~= decimal(n / 10));
        assert(s[0] == decimal(n / 10)[0]);
        assert(s.last() as int == 48 + n % 10);
        assert(n == (n / 10) * 10 + n % 10);
        assert(digits_value(s) == digits_value(s.drop_last()) * 10 + ((s.last() as int - 48) as nat));
        assert forall|i: int| 0 <= i < s.len() implies is_digit(#[trigger] s[i]) by {
            if i < s.len() - 1 {
                assert(s[i] == decimal(n / 10)[i]);
            }
        }
    } else {
        assert(decimal(n)[0] as int == 48 + n);
        assert(digits_value(Seq::<char>::empty()) == 0);
        assert(digits_value(decimal(n)) == digits_value(decimal(n).drop_last()) * 10 + ((decimal(n).last() as int - 48) as nat));
        assert(decimal(n).drop_last() =~= Seq::<char>::empty());
    }
}

/// Reading back what `decimal_string` wrote gives the same number.
pub proof fn law_decimal_roundtrip(n: u64)
    ensures
        parsed_u64(decimal(n as nat)) == Some(n),
{
    lemma_decimal_digits(n as nat);
}

/// Two digits with a leading zero, for `n < 100`.
pub open spec fn two_digits(n: int) -> Seq<char> {
    seq![digit(n / 10), digit(n % 10)]
}

/// `HH:MM` of the local wall clock at `m` (chrono's `format("%H:%M")`).
pub open spec fn clock_text(m: Moment) -> Seq<char> {
    two_digits(m.minute_of_day() / 60) + ":"@ + two_digits(m.minute_of_day() % 60)
}

/// Minute of the local day at `m`.
pub fn minute_of_day(m: Moment) -> (r: u32)
    requires
        m.wf(),
    ensures
        r == m.minute_of_day(),
        r < 1440,
{
    let shifted: i64 = m.secs + m.offset as i64 + 8_640_000_000_000;
    let w = shifted as u64;
    proof {
        vstd::arithmetic::div_mod::lemma_mod_multiples_vanish(100_000_000, m.wall(), 86_400);
        assert(8_640_000_000_000 == 86_400 * 100_000_000int);
    }
    ((w % 86_400) / 60) as u32
}

fn push_two_digits(out: &mut Vec<char>, n: u32)
    requires
        n < 100,
    ensures
        final(out)@ == old(out)@ + two_digits(n as int),
{
    out.push((48 + (n / 10) as u8) as char);
    out.push((48 + (n % 10) as u8) as char);
}

/// `HH:MM` of the local time at `m`.
pub fn clock(m: Moment) -> (r: String)
    requires
        m.wf(),
    ensures
        r@ == clock_text(m),
{
    let mins = minute_of_day(m);
    let mut out: Vec<char> = Vec::new();
    push_two_digits(&mut out, mins / 60);
    push_str(&mut out, ":");
    push_two_digits(&mut out, mins % 60);
    assert(out@ =~= clock_text(m));
    string_of(&out)
}

} // verus!
