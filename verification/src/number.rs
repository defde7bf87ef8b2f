//! Decimal numbers as text: reading a run of digits, reading a signed
//! identifier, and writing an integer.

use vstd::prelude::*;

verus! {

/// Whether `c` is one of the ten ASCII digits.
pub open spec fn is_digit(c: char) -> bool {
    0x30 <= c as u32 <= 0x39
}

/// The number that the digit `c` stands for.
pub open spec fn digit_value(c: char) -> nat {
    (c as u32 - 0x30) as nat
}

/// Whether `s` holds digits only (true of the empty text).
pub open spec fn all_digits(s: Seq<char>) -> bool {
    forall|i: int| 0 <= i < s.len() ==> is_digit(#[trigger] s[i])
}

/// The number that the digits `s` write in base ten; 0 for the empty text.
pub open spec fn decimal_value(s: Seq<char>) -> nat
    decreases s.len(),
{
    if s.len() == 0 {
        0
    } else {
        10 * decimal_value(s.drop_last()) + digit_value(s.last())
    }
}

/// The number that `s` writes, where `s` is one or more digits and the
/// number is no more than `limit`.
pub open spec fn bounded_decimal(s: Seq<char>, limit: nat) -> Option<nat> {
    if s.len() > 0 && all_digits(s) && decimal_value(s) <= limit {
        Some(decimal_value(s))
    } else {
        None
    }
}

/// The 64-bit signed integer that `s` writes: an optional `+` or `-`, then one
/// or more digits and nothing else, the number within the range of `i64`.
pub open spec fn signed_decimal(s: Seq<char>) -> Option<int> {
    let signed = s.len() > 0 && (s[0] == '-' || s[0] == '+');
    let digits = if signed {
        s.drop_first()
    } else {
        s
    };
    if digits.len() > 0 && all_digits(digits) {
        let v = if signed && s[0] == '-' {
            -(decimal_value(digits) as int)
        } else {
            decimal_value(digits) as int
        };
        if i64::MIN <= v <= i64::MAX {
            Some(v)
        } else {
            None
        }
    } else {
        None
    }
}

/// The digit that writes `d`, for `d` below ten.
pub open spec fn digit_char(d: nat) -> char {
    if d == 0 {
        '0'
    } else if d == 1 {
        '1'
    } else if d == 2 {
        '2'
    } else if d == 3 {
        '3'
    } else if d == 4 {
        '4'
    } else if d == 5 {
        '5'
    } else if d == 6 {
        '6'
    } else if d == 7 {
        '7'
    } else if d == 8 {
        '8'
    } else {
        '9'
    }
}

/// The digits of `n` in base ten, most significant first, without leading
/// zeros; one `0` for zero.
pub open spec fn decimal_digits(n: nat) -> Seq<char>
    decreases n,
{
    if n < 10 {
        seq![digit_char(n)]
    } else {
        decimal_digits(n / 10).push(digit_char(n % 10))
    }
}

/// `n` written in base ten, with a `-` in front where it is negative.
pub open spec fn decimal_text(n: int) -> Seq<char> {
    if n < 0 {
        seq!['-'] + decimal_digits((-n) as nat)
    } else {
        decimal_digits(n as nat)
    }
}

/// The digits of a number are digits, and they write that number.
pub proof fn lemma_decimal_digits(n: nat)
    ensures
        decimal_digits(n).len() > 0,
        all_digits(decimal_digits(n)),
        decimal_value(decimal_digits(n)) == n,
    decreases n,
{
    if n < 10 {
        let s = decimal_digits(n);
        assert(s.drop_last().len() == 0);
        assert(decimal_value(s.drop_last()) == 0);
    } else {
        let head = decimal_digits(n / 10);
        let s = decimal_digits(n);
        lemma_decimal_digits(n / 10);
        assert(s.drop_last() =~= head);
        assert forall|i: int| 0 <= i < s.len() implies is_digit(#[trigger] s[i]) by {
            if i < head.len() {
                assert(s[i] == head[i]);
            }
        }
    }
}

/// Among texts of digits, a text writes no less than any of its prefixes.
pub proof fn lemma_decimal_value_prefix(s: Seq<char>, k: int)
    requires
        0 <= k <= s.len(),
        all_digits(s),
    ensures
        decimal_value(s.take(k)) <= decimal_value(s),
    decreases s.len() - k,
{
    if k < s.len() {
        let init = s.drop_last();
        assert(is_digit(s.last()));
        assert forall|i: int| 0 <= i < init.len() implies is_digit(#[trigger] init[i]) by {
            assert(init[i] == s[i]);
        }
        lemma_decimal_value_prefix(init, k);
        assert(init.take(k) =~= s.take(k));
    } else {
        assert(s.take(k) =~= s);
    }
}

/// Whether `c` is one of the ten ASCII digits.
pub fn is_digit_char(c: char) -> (b: bool)
    ensures
        b == is_digit(c),
{
    let n: u32 = c as u32;
    0x30 <= n && n <= 0x39
}

/// Reads the slice `from..to` of `chars` as a number in base ten that is no
/// more than `limit`.
pub fn read_decimal(chars: &Vec<char>, from: usize, to: usize, limit: u64) -> (out: Option<u64>)
    requires
        from <= to <= chars.len(),
    ensures
        out matches Some(v) ==> bounded_decimal(
            chars@.subrange(from as int, to as int),
            limit as nat,
        ) == Some(v as nat),
        out is None ==> bounded_decimal(chars@.subrange(from as int, to as int), limit as nat)
            is None,
{
    let ghost s = chars@.subrange(from as int, to as int);
    if from == to {
        return None;
    }
    let mut acc: u128 = 0;
    let mut i: usize = from;
    while i < to
        invariant
            from <= i <= to <= chars.len(),
            s == chars@.subrange(from as int, to as int),
            forall|j: int| 0 <= j < i - from ==> is_digit(#[trigger] s[j]),
            acc == decimal_value(s.take(i - from)),
            acc <= limit,
        decreases to - i,
    {
        let c = chars[i];
        assert(s[i - from] == c);
        if !is_digit_char(c) {
            return None;
        }
        let d: u128 = (c as u32 - 0x30) as u128;
        let next: u128 = acc * 10 + d;
        proof {
            let longer = s.take(i - from + 1);
            assert(longer.drop_last() =~= s.take(i - from));
            assert(longer.last() == c);
            assert(next == decimal_value(longer));
        }
        if next > limit as u128 {
            proof {
                if all_digits(s) {
                    lemma_decimal_value_prefix(s, i - from + 1);
                }
            }
            return None;
        }
        acc = next;
        i += 1;
    }
    assert(s.take(to - from) =~= s);
    Some(acc as u64)
}

/// Reads the slice `from..to` of `chars` as a 64-bit signed integer in base
/// ten.
pub fn read_signed(chars: &Vec<char>, from: usize, to: usize) -> (out: Option<i64>)
    requires
        from <= to <= chars.len(),
    ensures
        out matches Some(v) ==> signed_decimal(chars@.subrange(from as int, to as int)) == Some(
            v as int,
        ),
        out is None ==> signed_decimal(chars@.subrange(from as int, to as int)) is None,
{
    let ghost s = chars@.subrange(from as int, to as int);
    let signed = from < to && (chars[from] == '-' || chars[from] == '+');
    let start: usize = if signed {
        from + 1
    } else {
        from
    };
    let negative = signed && chars[from] == '-';
    proof {
        if from < to {
            assert(s[0] == chars@[from as int]);
        }
        if signed {
            assert(chars@.subrange(start as int, to as int) =~= s.drop_first());
        }
    }
    if negative {
        match read_decimal(chars, start, to, 0x8000_0000_0000_0000) {
            Some(v) => {
                if v == 0x8000_0000_0000_0000 {
                    Some(i64::MIN)
                } else {
                    Some(-(v as i64))
                }
            },
            None => None,
        }
    } else {
        match read_decimal(chars, start, to, 0x7fff_ffff_ffff_ffff) {
            Some(v) => Some(v as i64),
            None => None,
        }
    }
}

/// The digit that writes `d`.
pub fn digit_of(d: u8) -> (c: char)
    requires
        d < 10,
    ensures
        c == digit_char(d as nat),
{
    if d == 0 {
        '0'
    } else if d == 1 {
        '1'
    } else if d == 2 {
        '2'
    } else if d == 3 {
        '3'
    } else if d == 4 {
        '4'
    } else if d == 5 {
        '5'
    } else if d == 6 {
        '6'
    } else if d == 7 {
        '7'
    } else if d == 8 {
        '8'
    } else {
        '9'
    }
}

/// Appends `n` in base ten to `out`.
pub fn push_decimal(out: &mut String, n: i64)
    ensures
        final(out)@ == old(out)@ + decimal_text(n as int),
{
    let mut rest: u64 = if n < 0 {
        out.push('-');
        if n == i64::MIN {
            0x8000_0000_0000_0000
        } else {
            (-n) as u64
        }
    } else {
        n as u64
    };
    let ghost magnitude = rest as nat;
    let ghost before = out@;
    let mut low: Vec<char> = Vec::new();
    while rest >= 10
        invariant
            decimal_digits(magnitude) == decimal_digits(rest as nat) + low@.reverse(),
        decreases rest,
    {
        let ghost tail = low@.reverse();
        low.push(digit_of((rest % 10) as u8));
        proof {
            assert(low@.reverse() =~= seq![digit_char((rest % 10) as nat)] + tail);
            assert(decimal_digits(rest as nat) =~= decimal_digits((rest / 10) as nat) + seq![
                digit_char((rest % 10) as nat),
            ]);
        }
        rest = rest / 10;
    }
    out.push(digit_of(rest as u8));
    let mut i: usize = low.len();
    while i > 0
        invariant
            i <= low.len(),
            out@ == before + seq![digit_char(rest as nat)] + low@.reverse().take(low.len() - i),
        decreases i,
    {
        i -= 1;
        out.push(low[i]);
        proof {
            let r = low@.reverse();
            assert(r[low.len() - 1 - i] == low@[i as int]);
            assert(r.take(low.len() - i) =~= r.take(low.len() - 1 - i).push(low@[i as int]));
        }
    }
    proof {
        let r = low@.reverse();
        assert(r.take(low.len() as int) =~= r);
        assert(decimal_digits(rest as nat) =~= seq![digit_char(rest as nat)]);
        assert(out@ =~= before + decimal_digits(magnitude));
        if n < 0 {
            assert(out@ =~= old(out)@ + (seq!['-'] + decimal_digits(magnitude)));
        }
    }
}

} // verus!
