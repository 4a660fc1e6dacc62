//! Decimal numerals: what a numeral stands for, and the numeral of a number.

use vstd::prelude::*;
use vstd::string::*;

verus! {

/// Whether `c` is one of `0` to `9`.
pub open spec fn is_digit(c: char) -> bool {
    '0' <= c && c <= '9'
}

/// The number that the digit `c` stands for.
pub open spec fn digit_value(c: char) -> nat {
    (c as int - '0' as int) as nat
}

/// The digit that stands for `d`, for `d` below ten.
pub open spec fn digit_char(d: nat) -> char {
    if d == 0 {
        '0'
    } else if d == 1 {
        '1'
    } else if d == 2 {
        '2'
    } else if d == 3 {
        '3'
    } else if d == 4 {
        '4'
    } else if d == 5 {
        '5'
    } else if d == 6 {
        '6'
    } else if d == 7 {
        '7'
    } else if d == 8 {
        '8'
    } else {
        '9'
    }
}

/// Whether `s` holds digits only.
pub open spec fn all_digits(s: Seq<char>) -> bool {
    forall|i: int| 0 <= i < s.len() ==> is_digit(#[trigger] s[i])
}

/// The number that a run of digits stands for, the last digit counting least.
pub open spec fn digits_value(s: Seq<char>) -> nat
    decreases s.len(),
{
    if s.len() == 0 {
        0
    } else {
        10 * digits_value(s.drop_last()) + digit_value(s.last())
    }
}

/// The number that a run of digits stands for, where it is a numeral at all:
/// at least one character, digits only, and a value of at most `max`.
pub open spec fn numeral_value(s: Seq<char>, max: nat) -> Option<nat> {
    if s.len() > 0 && all_digits(s) && digits_value(s) <= max {
        Some(digits_value(s))
    } else {
        None
    }
}

/// What an unsigned numeral stands for: a run of digits, which a single `+`
/// may precede. No other character is admitted, whitespace included.
pub open spec fn unsigned_value(s: Seq<char>, max: nat) -> Option<nat> {
    if s.len() > 0 && s[0] == '+' {
        numeral_value(s.drop_first(), max)
    } else {
        numeral_value(s, max)
    }
}

/// What a signed numeral stands for: a run of digits, which a single `+` or
/// `-` may precede, with a value from `-below` to `max`.
pub open spec fn signed_value(s: Seq<char>, below: nat, max: nat) -> Option<int> {
    if s.len() > 0 && s[0] == '-' {
        match numeral_value(s.drop_first(), below) {
            Some(v) => Some(-(v as int)),
            None => None,
        }
    } else {
        match unsigned_value(s, max) {
            Some(v) => Some(v as int),
            None => None,
        }
    }
}

/// The decimal numeral of `n`, without sign or leading zeros.
pub open spec fn decimal(n: nat) -> Seq<char>
    decreases n,
{
    if n < 10 {
        seq![digit_char(n)]
    } else {
        decimal(n / 10).push(digit_char(n % 10))
    }
}

/// A run of digits stands for at least as much as any of its prefixes.
pub proof fn lemma_prefix_value(s: Seq<char>, k: int)
    requires
        0 <= k <= s.len(),
    ensures
        digits_value(s.take(k)) <= digits_value(s),
    decreases s.len() - k,
{
    if k < s.len() {
        lemma_prefix_value(s, k + 1);
        assert(s.take(k + 1).drop_last() =~= s.take(k));
    } else {
        assert(s.take(k) =~= s);
    }
}

/// The numeral of a number holds digits only and stands for that number.
pub proof fn lemma_decimal_value(n: nat)
    ensures
        decimal(n).len() > 0,
        all_digits(decimal(n)),
        digits_value(decimal(n)) == n,
        decimal(n)[0] != '+',
        decimal(n)[0] != '-',
    decreases n,
{
    if n < 10 {
        let s = decimal(n);
        assert(s.drop_last() =~= Seq::<char>::empty());
        assert(digits_value(s.drop_last()) == 0);
    } else {
        lemma_decimal_value(n / 10);
        let s = decimal(n);
        assert(s.drop_last() =~= decimal(n / 10));
    }
}

/// Reading back the numeral of a number gives that number.
pub proof fn lemma_decimal_round_trip(n: nat, max: nat)
    requires
        n <= max,
    ensures
        unsigned_value(decimal(n), max) == Some(n),
{
    lemma_decimal_value(n);
}

/// The value of the digits of `s` from `from` to its end, where they are a
/// numeral of at most `max`.
pub fn parse_digits(s: &[char], from: usize, max: u64) -> (r: Option<u64>)
    requires
        from <= s@.len(),
    ensures
        match r {
            Some(v) => numeral_value(s@.skip(from as int), max as nat) == Some(v as nat),
            None => numeral_value(s@.skip(from as int), max as nat) is None,
        },
{
    let ghost digits = s@.skip(from as int);
    if from == s.len() {
        return None;
    }
    let mut acc: u64 = 0;
    let mut i: usize = from;
    while i < s.len()
        invariant
            from <= i <= s@.len(),
            digits == s@.skip(from as int),
            all_digits(digits.take(i - from)),
            acc == digits_value(digits.take(i - from)),
            acc <= max,
        decreases s@.len() - i,
    {
        let c = s[i];
        if !('0' <= c && c <= '9') {
            proof {
                assert(digits[i - from] == c);
            }
            return None;
        }
        let d: u64 = (c as u64) - ('0' as u64);
        let next: u128 = (acc as u128) * 10 + (d as u128);
        proof {
            let longer = digits.take(i - from + 1);
            assert(longer.drop_last() =~= digits.take(i - from));
            assert(longer.last() == c);
            assert(digits_value(longer) == next);
            assert forall|j: int| 0 <= j < longer.len() implies is_digit(#[trigger] longer[j]) by {
                if j < i - from {
                    assert(digits.take(i - from)[j] == longer[j]);
                }
            }
        }
        if next > max as u128 {
            proof {
                lemma_prefix_value(digits, i - from + 1);
            }
            return None;
        }
        acc = next as u64;
        i = i + 1;
    }
    proof {
        assert(digits.take(i - from) =~= digits);
    }
    Some(acc)
}

/// The value of the unsigned numeral `s`, where it is one of at most `max`.
pub fn parse_unsigned(s: &[char], max: u64) -> (r: Option<u64>)
    ensures
        match r {
            Some(v) => unsigned_value(s@, max as nat) == Some(v as nat),
            None => unsigned_value(s@, max as nat) is None,
        },
{
    if s.len() > 0 && s[0] == '+' {
        proof {
            assert(s@.skip(1) =~= s@.drop_first());
        }
        parse_digits(s, 1, max)
    } else {
        proof {
            assert(s@.skip(0) =~= s@);
        }
        parse_digits(s, 0, max)
    }
}

/// The value of the signed numeral `s`, where it is one that an `i32` holds.
pub fn parse_i32(s: &[char]) -> (r: Option<i32>)
    ensures
        match r {
            Some(v) => signed_value(s@, 0x8000_0000, 0x7fff_ffff) == Some(v as int),
            None => signed_value(s@, 0x8000_0000, 0x7fff_ffff) is None,
        },
{
    if s.len() > 0 && s[0] == '-' {
        proof {
            assert(s@.skip(1) =~= s@.drop_first());
        }
        match parse_digits(s, 1, 0x8000_0000) {
            Some(v) => {
                if v == 0x8000_0000 {
                    Some(i32::MIN)
                } else {
                    Some(-(v as i32))
                }
            },
            None => None,
        }
    } else {
        match parse_unsigned(s, 0x7fff_ffff) {
            Some(v) => Some(v as i32),
            None => None,
        }
    }
}

/// The text of one digit.
fn digit_text(d: u8) -> (r: &'static str)
    requires
        d < 10,
    ensures
        r@ == seq![digit_char(d as nat)],
{
    proof {
        reveal_strlit("0");
        reveal_strlit("1");
        reveal_strlit("2");
        reveal_strlit("3");
        reveal_strlit("4");
        reveal_strlit("5");
        reveal_strlit("6");
        reveal_strlit("7");
        reveal_strlit("8");
        reveal_strlit("9");
    }
    let r = if d == 0 {
        "0"
    } else if d == 1 {
        "1"
    } else if d == 2 {
        "2"
    } else if d == 3 {
        "3"
    } else if d == 4 {
        "4"
    } else if d == 5 {
        "5"
    } else if d == 6 {
        "6"
    } else if d == 7 {
        "7"
    } else if d == 8 {
        "8"
    } else {
        "9"
    };
    assert(r@ =~= seq![digit_char(d as nat)]);
    r
}

/// The decimal numeral of `n`.
pub fn decimal_text(n: usize) -> (r: String)
    ensures
        r@ == decimal(n as nat),
    decreases n,
{
    let mut out = if n < 10 {
        String::new()
    } else {
        decimal_text(n / 10)
    };
    out.append(digit_text((n % 10) as u8));
    proof {
        if n < 10 {
            assert(out@ =~= seq![digit_char(n as nat)]);
        } else {
            assert(out@ =~= decimal((n / 10) as nat).push(digit_char((n % 10) as nat)));
        }
    }
    out
}

} // verus!
