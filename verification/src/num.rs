//! Decimal text for integers: parsing as `str::parse` does, and formatting
//! as `Display` does.

use vstd::prelude::*;

verus! {

/// An ASCII decimal digit.
pub open spec fn is_digit(c: char) -> bool {
    '0' <= c <= '9'
}

/// The value of an ASCII decimal digit.
pub open spec fn digit_val(c: char) -> int {
    (c as int) - ('0' as int)
}

/// Every character of `s` is a decimal digit.
pub open spec fn all_digits(s: Seq<char>) -> bool {
    forall|i: int| 0 <= i < s.len() ==> is_digit(#[trigger] s[i])
}

/// The number that the digit string `s` denotes (0 for the empty string).
pub open spec fn digits_value(s: Seq<char>) -> nat
    decreases s.len(),
{
    if s.len() == 0 {
        0
    } else {
        (digits_value(s.drop_last()) * 10 + digit_val(s.last())) as nat
    }
}

/// The digits of an unsigned number: a leading `+` is dropped when
/// something follows it.
pub open spec fn unsigned_body(s: Seq<char>) -> Seq<char> {
    if s.len() > 1 && s[0] == '+' {
        s.drop_first()
    } else {
        s
    }
}

/// What `str::parse` gives for an unsigned integer type whose largest value
/// is `max`: a non-empty run of digits, optionally after one `+`, that
/// denotes a number no larger than `max`.
pub open spec fn parse_unsigned(s: Seq<char>, max: nat) -> Option<nat> {
    let d = unsigned_body(s);
    if d.len() > 0 && all_digits(d) && digits_value(d) <= max {
        Some(digits_value(d))
    } else {
        None
    }
}

/// What `str::parse::<i64>` gives: an optional sign (`+` or `-`, with
/// something after it) and a non-empty run of digits within range.
pub open spec fn parse_signed64(s: Seq<char>) -> Option<int> {
    if s.len() > 1 && s[0] == '-' {
        let d = s.drop_first();
        if all_digits(d) && digits_value(d) <= 0x8000_0000_0000_0000 {
            Some(-(digits_value(d) as int))
        } else {
            None
        }
    } else {
        match parse_unsigned(s, 0x7fff_ffff_ffff_ffff) {
            Some(v) => Some(v as int),
            None => None,
        }
    }
}

/// The digit character for `d` in `0..10`.
pub open spec fn digit_char(d: nat) -> char {
    seq!['0', '1', '2', '3', '4', '5', '6', '7', '8', '9'][d as int]
}

/// The digit character for `d`.
fn digit_to_char(d: u64) -> (c: char)
    requires
        d < 10,
    ensures
        c == digit_char(d as nat),
{
    match d {
        0 => '0',
        1 => '1',
        2 => '2',
        3 => '3',
        4 => '4',
        5 => '5',
        6 => '6',
        7 => '7',
        8 => '8',
        _ => '9',
    }
}

/// The decimal digits of `n`, without leading zeros (`"0"` for zero).
pub open spec fn decimal(n: nat) -> Seq<char>
    decreases n,
{
    if n < 10 {
        seq![digit_char(n)]
    } else {
        decimal(n / 10).push(digit_char(n % 10))
    }
}

/// The text `Display` gives for the integer `n`.
pub open spec fn decimal_int(n: int) -> Seq<char> {
    if n < 0 {
        seq!['-'] + decimal((-n) as nat)
    } else {
        decimal(n as nat)
    }
}

proof fn lemma_prefix_value_le(s: Seq<char>, i: int)
    requires
        0 <= i <= s.len(),
        all_digits(s),
    ensures
        digits_value(s.take(i)) <= digits_value(s),
    decreases s.len() - i,
{
    if i < s.len() {
        lemma_prefix_value_le(s, i + 1);
        assert(s.take(i + 1).drop_last() =~= s.take(i));
        assert(is_digit(s[i]));
    } else {
        assert(s.take(i) =~= s);
    }
}

/// The decimal form of `n` is a digit string that denotes `n`.
pub proof fn lemma_decimal_value(n: nat)
    ensures
        decimal(n).len() >= 1,
        all_digits(decimal(n)),
        digits_value(decimal(n)) == n,
    decreases n,
{
    let t = seq!['0', '1', '2', '3', '4', '5', '6', '7', '8', '9'];
    assert(forall|k: int| 0 <= k < 10 ==> is_digit(#[trigger] t[k]) && digit_val(t[k]) == k);
    if n >= 10 {
        lemma_decimal_value(n / 10);
        let d = decimal(n / 10);
        assert(decimal(n).drop_last() =~= d);
        assert(digit_char((n % 10) as nat) == t[(n % 10) as int]);
        assert(decimal(n).last() == digit_char((n % 10) as nat));
        assert(digit_val(decimal(n).last()) == n % 10);
        assert(digits_value(decimal(n)) == digits_value(d) * 10 + n % 10);
        assert((n / 10) * 10 + n % 10 == n);
        assert forall|i: int| 0 <= i < decimal(n).len() implies is_digit(#[trigger] decimal(n)[i]) by {
            if i < d.len() {
                assert(decimal(n)[i] == d[i]);
            }
        }
    } else {
        assert(decimal(n).drop_last() =~= Seq::<char>::empty());
        assert(digit_char(n) == t[n as int]);
        assert(decimal(n).last() == t[n as int]);
        assert(digits_value(decimal(n).drop_last()) == 0);
        assert(digit_val(t[n as int]) == n);
    }
}

/// Parsing the decimal form of `n` gives `n` back, for any unsigned type
/// that can hold `n`.
pub proof fn lemma_parse_decimal(n: nat, max: nat)
    requires
        n <= max,
    ensures
        parse_unsigned(decimal(n), max) == Some(n),
{
    lemma_decimal_value(n);
}

/// Parsing the `Display` text of an `i64` gives it back.
pub proof fn lemma_parse_decimal_int(n: i64)
    ensures
        parse_signed64(decimal_int(n as int)) == Some(n as int),
{
    if n < 0 {
        lemma_decimal_value((-n) as nat);
        assert((seq!['-'] + decimal((-n) as nat)).drop_first() =~= decimal((-n) as nat));
    } else {
        lemma_decimal_value(n as nat);
        let d = decimal(n as nat);
        assert(d[0] != '-');
    }
}

/// Digit run `s[from..]` read as a number, when it fits in `max`.
fn parse_digits(s: &[char], from: usize, max: u64) -> (r: Option<u64>)
    requires
        from <= s@.len(),
    ensures
        r == (if s@.len() > from && all_digits(s@.skip(from as int)) && digits_value(
            s@.skip(from as int),
        ) <= max {
            Some(digits_value(s@.skip(from as int)) as u64)
        } else {
            None::<u64>
        }),
{
    let ghost d = s@.skip(from as int);
    if from == s.len() {
        return None;
    }
    let mut v: u64 = 0;
    let mut i: usize = from;
    assert(d.take(0) =~= Seq::<char>::empty());
    while i < s.len()
        invariant
            from <= i <= s@.len(),
            d == s@.skip(from as int),
            all_digits(d.take(i - from)),
            v as nat == digits_value(d.take(i - from)),
            v <= max,
        decreases s@.len() - i,
    {
        let c = s[i];
        assert(c == d[i - from]);
        if !('0' <= c && c <= '9') {
            assert(!all_digits(d));
            return None;
        }
        let dv: u64 = (c as u64) - ('0' as u64);
        assert(d.take(i - from + 1).drop_last() =~= d.take(i - from));
        assert(d.take(i - from + 1).last() == c);
        assert(dv as int == digit_val(c));
        if v > max / 10 || (v == max / 10 && dv > max % 10) {
            proof {
                assert(v * 10 + dv > max) by (nonlinear_arith)
                    requires
                        v > max / 10 || (v == max / 10 && dv > max % 10),
                        max >= 0,
                        dv <= 9,
                ;
                if all_digits(d) {
                    lemma_prefix_value_le(d, i - from + 1);
                }
            }
            return None;
        }
        assert(v * 10 + dv <= max) by (nonlinear_arith)
            requires
                !(v > max / 10 || (v == max / 10 && dv > max % 10)),
                max >= 0,
                dv <= 9,
        ;
        v = v * 10 + dv;
        i = i + 1;
        assert forall|j: int| 0 <= j < i - from implies is_digit(#[trigger] d.take(i - from)[j]) by {
            if j < i - from - 1 {
                assert(d.take(i - from)[j] == d.take(i - from - 1)[j]);
            }
        }
    }
    assert(d.take(i - from) =~= d);
    Some(v)
}

/// `s` read as an unsigned number no larger than `max`, as
/// `str::parse::<u64>` reads it (with `max` the type's largest value).
pub fn parse_unsigned_chars(s: &[char], max: u64) -> (r: Option<u64>)
    ensures
        r matches Some(v) ==> parse_unsigned(s@, max as nat) == Some(v as nat),
        r is None ==> parse_unsigned(s@, max as nat) is None,
{
    if s.len() > 1 && s[0] == '+' {
        assert(s@.skip(1) =~= s@.drop_first());
        parse_digits(s, 1, max)
    } else {
        assert(s@.skip(0) =~= s@);
        parse_digits(s, 0, max)
    }
}

/// `s` read as a `u64`, as `str::parse::<u64>` reads it.
pub fn parse_u64(s: &[char]) -> (r: Option<u64>)
    ensures
        r matches Some(v) ==> parse_unsigned(s@, u64::MAX as nat) == Some(v as nat),
        r is None ==> parse_unsigned(s@, u64::MAX as nat) is None,
{
    parse_unsigned_chars(s, u64::MAX)
}

/// `s` read as a `u16`, as `str::parse::<u16>` reads it.
pub fn parse_u16(s: &[char]) -> (r: Option<u16>)
    ensures
        r matches Some(v) ==> parse_unsigned(s@, u16::MAX as nat) == Some(v as nat),
        r is None ==> parse_unsigned(s@, u16::MAX as nat) is None,
{
    match parse_unsigned_chars(s, 0xffff) {
        Some(v) => Some(v as u16),
        None => None,
    }
}

/// `s` read as an `i64`, as `str::parse::<i64>` reads it.
pub fn parse_i64(s: &[char]) -> (r: Option<i64>)
    ensures
        r matches Some(v) ==> parse_signed64(s@) == Some(v as int),
        r is None ==> parse_signed64(s@) is None,
{
    if s.len() > 1 && s[0] == '-' {
        assert(s@.skip(1) =~= s@.drop_first());
        match parse_digits(s, 1, 0x8000_0000_0000_0000) {
            Some(m) => {
                if m == 0x8000_0000_0000_0000 {
                    Some(i64::MIN)
                } else {
                    Some(-(m as i64))
                }
            },
            None => {
                assert(s@.drop_first().len() > 0);
                None
            },
        }
    } else {
        match parse_unsigned_chars(s, 0x7fff_ffff_ffff_ffff) {
            Some(v) => Some(v as i64),
            None => None,
        }
    }
}

/// Appends the decimal digits of `n` to `out`.
pub fn push_decimal(out: &mut Vec<char>, n: u64)
    ensures
        final(out)@ == old(out)@ + decimal(n as nat),
    decreases n,
{
    if n >= 10 {
        push_decimal(out, n / 10);
    }
    let c: char = digit_to_char(n % 10);
    out.push(c);
    proof {
        if n >= 10 {
            assert(decimal(n as nat) == decimal((n / 10) as nat).push(digit_char((n % 10) as nat)));
        }
    }
    assert(final(out)@ =~= old(out)@ + decimal(n as nat));
}

/// Appends the `Display` text of `n` to `out`.
pub fn push_decimal_i64(out: &mut Vec<char>, n: i64)
    ensures
        final(out)@ == old(out)@ + decimal_int(n as int),
{
    if n < 0 {
        out.push('-');
        let m: u64 = if n == i64::MIN {
            0x8000_0000_0000_0000
        } else {
            (-n) as u64
        };
        push_decimal(out, m);
        assert(final(out)@ =~= old(out)@ + (seq!['-'] + decimal(m as nat)));
    } else {
        push_decimal(out, n as u64);
    }
}

/// The decimal text of `n`, as `u64::to_string`.
pub fn u64_to_chars(n: u64) -> (r: Vec<char>)
    ensures
        r@ == decimal(n as nat),
{
    let mut v: Vec<char> = Vec::new();
    push_decimal(&mut v, n);
    assert(v@ =~= decimal(n as nat));
    v
}

/// The `Display` text of `n`, as `i64::to_string`.
pub fn i64_to_chars(n: i64) -> (r: Vec<char>)
    ensures
        r@ == decimal_int(n as int),
{
    let mut v: Vec<char> = Vec::new();
    push_decimal_i64(&mut v, n);
    assert(v@ =~= decimal_int(n as int));
    v
}

} // verus!
