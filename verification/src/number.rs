//! Integers in text: decimal and hexadecimal digits, and reading integers back.

use vstd::prelude::*;
use vstd::string::*;

use crate::text::{chars_of, is_digit, is_digit_char};

verus! {

// ---------------------------------------------------------------------------
// Writing
// ---------------------------------------------------------------------------
/// The digit for a value below sixteen, in lower case.
pub open spec fn digit_char(d: nat) -> char {
    if d < 10 {
        ((48 + d) as u32) as char
    } else {
        ((87 + d) as u32) as char
    }
}

/// The digits of `n` in the given base, most significant first.
pub open spec fn digits(n: nat, base: nat) -> Seq<char>
    decreases n,
{
    if base < 2 || n < base {
        seq![digit_char(n)]
    } else {
        proof {
            assert(n / base < n) by (nonlinear_arith)
                requires
                    n >= base,
                    base >= 2,
            ;
        }
        digits(n / base, base).push(digit_char(n % base))
    }
}

/// An integer in decimal notation.
pub open spec fn decimal(n: int) -> Seq<char> {
    if n < 0 {
        seq!['-'] + digits((-n) as nat, 10)
    } else {
        digits(n as nat, 10)
    }
}

/// An unsigned integer in lower-case hexadecimal notation.
pub open spec fn hexadecimal(n: nat) -> Seq<char> {
    digits(n, 16)
}

fn digit_of(d: u128) -> (r: char)
    requires
        d < 16,
    ensures
        r == digit_char(d as nat),
{
    let b: u8 = if d < 10 {
        (d as u8) + 48
    } else {
        (d as u8) + 87
    };
    b as char
}

fn push_digits(out: &mut String, n: u128, base: u128)
    requires
        2 <= base <= 16,
    ensures
        final(out)@ == old(out)@ + digits(n as nat, base as nat),
    decreases n,
{
    let ghost before = out@;
    if n >= base {
        assert(n / base < n) by (nonlinear_arith)
            requires
                n >= base,
                base >= 2,
        ;
        push_digits(out, n / base, base);
        assert(n % base < base) by (nonlinear_arith)
            requires
                base >= 2,
        ;
        out.push(digit_of(n % base));
        assert(out@ =~= before + digits(n as nat, base as nat));
    } else {
        out.push(digit_of(n));
        assert(out@ =~= before + digits(n as nat, base as nat));
    }
}

/// Appends `n` in decimal notation.
pub fn push_decimal(out: &mut String, n: i64)
    ensures
        final(out)@ == old(out)@ + decimal(n as int),
{
    let ghost before = out@;
    if n < 0 {
        out.push('-');
        let m: u64 = if n == i64::MIN {
            9_223_372_036_854_775_808u64
        } else {
            (-n) as u64
        };
        push_digits(out, m as u128, 10);
        assert(out@ =~= before + decimal(n as int));
    } else {
        push_digits(out, n as u128, 10);
    }
}

/// Appends an unsigned `n` in decimal notation.
pub fn push_unsigned(out: &mut String, n: u128)
    ensures
        final(out)@ == old(out)@ + decimal(n as int),
{
    push_digits(out, n, 10);
}

pub fn decimal_text(n: i64) -> (r: String)
    ensures
        r@ == decimal(n as int),
{
    let mut out: String = String::new();
    push_decimal(&mut out, n);
    assert(out@ =~= decimal(n as int));
    out
}

pub fn hexadecimal_text(n: u64) -> (r: String)
    ensures
        r@ == hexadecimal(n as nat),
{
    let mut out: String = String::new();
    push_digits(&mut out, n as u128, 16);
    assert(out@ =~= hexadecimal(n as nat));
    out
}

// ---------------------------------------------------------------------------
// Reading
// ---------------------------------------------------------------------------
pub open spec fn all_digits(s: Seq<char>) -> bool {
    forall|i: int| 0 <= i < s.len() ==> is_digit(#[trigger] s[i])
}

/// The value of a run of decimal digits.
pub open spec fn digits_value(s: Seq<char>) -> nat
    decreases s.len(),
{
    if s.len() == 0 {
        0
    } else {
        digits_value(s.drop_last()) * 10 + ((s.last() as u32) - 48) as nat
    }
}

/// The integer that a text denotes: an optional sign and at least one decimal digit, with a
/// value between `lo` and `hi`.
pub open spec fn parse_integer(s: Seq<char>, lo: int, hi: int) -> Option<int> {
    let signed = s.len() > 0 && (s[0] == '-' || s[0] == '+');
    let body = if signed {
        s.skip(1)
    } else {
        s
    };
    let value = if s.len() > 0 && s[0] == '-' {
        -(digits_value(body) as int)
    } else {
        digits_value(body) as int
    };
    if body.len() == 0 || !all_digits(body) || value < lo || value > hi {
        None
    } else {
        Some(value)
    }
}

fn digit_value(c: char) -> (r: u64)
    requires
        is_digit(c),
    ensures
        r == (c as u32) - 48,
        r < 10,
{
    (c as u32 - 48) as u64
}

/// The value of the digits from `from` on, if they are digits and the value is at most `cap`.
fn read_digits(v: &Vec<char>, from: usize, cap: u64) -> (r: Option<u64>)
    requires
        from <= v.len(),
        cap <= 0x8000_0000_0000_0000u64,
    ensures
        ({
            let body = v@.skip(from as int);
            let fits = body.len() > 0 && all_digits(body) && digits_value(body) <= cap;
            &&& r is Some == fits
            &&& r matches Some(n) ==> n == digits_value(body)
        }),
{
    let ghost body = v@.skip(from as int);
    if from >= v.len() {
        return None;
    }
    let mut i: usize = from;
    let mut acc: u64 = 0;
    let mut over: bool = false;
    assert(body.take(0) =~= Seq::<char>::empty());
    while i < v.len()
        invariant
            from <= i <= v.len(),
            body == v@.skip(from as int),
            cap <= 0x8000_0000_0000_0000u64,
            all_digits(body.take(i - from)),
            !over ==> acc == digits_value(body.take(i - from)) && acc <= cap,
            over ==> digits_value(body.take(i - from)) > cap,
        decreases v.len() - i,
    {
        let c: char = v[i];
        assert(body[i - from] == c);
        if !is_digit_char(c) {
            assert(!is_digit(body[i - from]));
            return None;
        }
        proof {
            let next = body.take(i + 1 - from);
            assert(next.drop_last() =~= body.take(i - from));
            assert(next.last() == c);
            assert forall|x: int| 0 <= x < next.len() implies is_digit(#[trigger] next[x]) by {
                if x < i - from {
                    assert(next[x] == body.take(i - from)[x]);
                }
            }
        }
        if !over {
            let d: u64 = digit_value(c);
            if acc > 1_000_000_000_000_000_000u64 {
                over = true;
            } else {
                acc = acc * 10 + d;
                if acc > cap {
                    over = true;
                }
            }
        }
        i = i + 1;
    }
    assert(body.take(v.len() - from) =~= body);
    if over {
        None
    } else {
        Some(acc)
    }
}

pub fn parse_i64(s: &str) -> (r: Option<i64>)
    ensures
        r is Some == parse_integer(s@, i64::MIN as int, i64::MAX as int) is Some,
        r matches Some(n) ==> parse_integer(s@, i64::MIN as int, i64::MAX as int) == Some(n as int),
{
    let v: Vec<char> = chars_of(s);
    if v.len() > 0 && v[0] == '-' {
        match read_digits(&v, 1, 9_223_372_036_854_775_808u64) {
            Some(m) => {
                if m == 9_223_372_036_854_775_808u64 {
                    Some(i64::MIN)
                } else {
                    Some(-(m as i64))
                }
            },
            None => None,
        }
    } else {
        let from: usize = if v.len() > 0 && v[0] == '+' {
            1
        } else {
            0
        };
        assert(v@.skip(0) =~= s@);
        match read_digits(&v, from, 9_223_372_036_854_775_807u64) {
            Some(m) => Some(m as i64),
            None => None,
        }
    }
}

pub fn parse_i32(s: &str) -> (r: Option<i32>)
    ensures
        r is Some == parse_integer(s@, i32::MIN as int, i32::MAX as int) is Some,
        r matches Some(n) ==> parse_integer(s@, i32::MIN as int, i32::MAX as int) == Some(n as int),
{
    match parse_i64(s) {
        Some(n) => {
            if -2_147_483_648 <= n && n <= 2_147_483_647 {
                Some(n as i32)
            } else {
                None
            }
        },
        None => None,
    }
}

// ---------------------------------------------------------------------------
// Laws
// ---------------------------------------------------------------------------
proof fn lemma_digits_read_back(n: nat)
    ensures
        digits(n, 10).len() > 0,
        all_digits(digits(n, 10)),
        digits_value(digits(n, 10)) == n,
    decreases n,
{
    if n < 10 {
        let s = digits(n, 10);
        assert(s.drop_last() =~= Seq::<char>::empty());
        assert(s.last() == digit_char(n));
        assert((digit_char(n) as u32) - 48 == n);
        assert(digits_value(s.drop_last()) == 0);
    } else {
        lemma_digits_read_back(n / 10);
        let s = digits(n, 10);
        assert(s.drop_last() =~= digits(n / 10, 10));
        assert(s.last() == digit_char(n % 10));
        assert((digit_char(n % 10) as u32) - 48 == n % 10);
        assert forall|i: int| 0 <= i < s.len() implies is_digit(#[trigger] s[i]) by {
            if i < s.len() - 1 {
                assert(s[i] == digits(n / 10, 10)[i]);
            }
        }
    }
}

/// An integer written in decimal notation reads back as itself.
pub proof fn law_decimal_round_trip(n: int, lo: int, hi: int)
    requires
        lo <= n <= hi,
    ensures
        parse_integer(decimal(n), lo, hi) == Some(n),
{
    if n < 0 {
        lemma_digits_read_back((-n) as nat);
        assert(decimal(n).skip(1) =~= digits((-n) as nat, 10));
        assert(decimal(n)[0] == '-');
    } else {
        lemma_digits_read_back(n as nat);
        let s = decimal(n);
        assert(is_digit(s[0]));
    }
}

/// A number that is not negative is written with digits alone, and with at least one.
pub proof fn law_decimal_digits(n: int)
    requires
        0 <= n,
    ensures
        all_digits(decimal(n)),
        decimal(n).len() > 0,
{
    lemma_digits_read_back(n as nat);
}

/// A plus sign before a number makes no difference, and a text that is no number denotes none.
pub proof fn law_signs(n: int, lo: int, hi: int)
    requires
        0 <= n,
        lo <= n <= hi,
    ensures
        parse_integer(seq!['+'] + decimal(n), lo, hi) == Some(n),
        parse_integer(Seq::empty(), lo, hi) is None,
        parse_integer(seq!['+'], lo, hi) is None,
        parse_integer(seq!['-'], lo, hi) is None,
{
    lemma_digits_read_back(n as nat);
    assert((seq!['+'] + decimal(n)).skip(1) =~= decimal(n));
    assert(seq!['+'].skip(1) =~= Seq::<char>::empty());
    assert(seq!['-'].skip(1) =~= Seq::<char>::empty());
}

/// A number beyond the bounds is not taken, nor is a text with anything but digits behind the sign.
pub proof fn law_numbers_out_of_bounds(n: int, lo: int, hi: int, s: Seq<char>, i: int)
    ensures
        n < lo || n > hi ==> parse_integer(decimal(n), lo, hi) is None,
        0 < i < s.len() && !is_digit(s[i]) ==> parse_integer(s, lo, hi) is None,
{
    if n < 0 {
        lemma_digits_read_back((-n) as nat);
        assert(decimal(n).skip(1) =~= digits((-n) as nat, 10));
        assert(decimal(n)[0] == '-');
    } else {
        lemma_digits_read_back(n as nat);
        assert(is_digit(decimal(n)[0]));
    }
    if 0 < i < s.len() && !is_digit(s[i]) {
        assert(s.skip(1)[i - 1] == s[i]);
    }
}

} // verus!
