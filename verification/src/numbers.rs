//! Decimal integers in text: reading an `i64` as `str::parse` does, and
//! writing integers in decimal as `Display` does.
use vstd::prelude::*;
use crate::text::push_char;

verus! {

pub open spec fn is_digit(c: char) -> bool {
    '0' <= c && c <= '9'
}

pub open spec fn digit_value(c: char) -> int {
    c as int - '0' as int
}

pub open spec fn all_digits(s: Seq<char>) -> bool {
    forall|i: int| 0 <= i < s.len() ==> is_digit(#[trigger] s[i])
}

/// The value of a string of decimal digits.
pub open spec fn digits_value(s: Seq<char>) -> int
    decreases s.len(),
{
    if s.len() == 0 {
        0
    } else {
        digits_value(s.drop_last()) * 10 + digit_value(s.last())
    }
}

/// Why `str::parse::<i64>` refuses a string (`std::num::IntErrorKind`).
#[derive(Debug, Clone, Copy, PartialEq, Eq, Structural)]
pub enum IntErrorKind {
    /// The string is empty.
    Empty,
    /// A character is not a digit (or the string is a lone sign).
    InvalidDigit,
    /// The value is above `i64::MAX`.
    PosOverflow,
    /// The value is below `i64::MIN`.
    NegOverflow,
}

impl IntErrorKind {
    /// The text that `ParseIntError` displays for this kind.
    pub fn message(&self) -> (m: &'static str)
        ensures
            m@ == int_error_text(*self),
    {
        match self {
            IntErrorKind::Empty => "cannot parse integer from empty string",
            IntErrorKind::InvalidDigit => "invalid digit found in string",
            IntErrorKind::PosOverflow => "number too large to fit in target type",
            IntErrorKind::NegOverflow => "number too small to fit in target type",
        }
    }
}

/// The text that `ParseIntError` displays for each kind.
pub open spec fn int_error_text(k: IntErrorKind) -> Seq<char> {
    match k {
        IntErrorKind::Empty => "cannot parse integer from empty string"@,
        IntErrorKind::InvalidDigit => "invalid digit found in string"@,
        IntErrorKind::PosOverflow => "number too large to fit in target type"@,
        IntErrorKind::NegOverflow => "number too small to fit in target type"@,
    }
}

/// Reading the digits `ds` from the left, as `i64::from_str_radix` does,
/// accumulating downward for a negative number: the first character that
/// is not a digit, or the first digit that takes the value out of the `i64`
/// range, stops it with that error.
pub open spec fn digits_scan(ds: Seq<char>, neg: bool) -> Result<int, IntErrorKind>
    decreases ds.len(),
{
    if ds.len() == 0 {
        Ok(0)
    } else {
        match digits_scan(ds.drop_last(), neg) {
            Err(e) => Err(e),
            Ok(v) => if !is_digit(ds.last()) {
                Err(IntErrorKind::InvalidDigit)
            } else {
                let w = if neg { v * 10 - digit_value(ds.last()) } else { v * 10 + digit_value(ds.last()) };
                if w > i64::MAX {
                    Err(IntErrorKind::PosOverflow)
                } else if w < i64::MIN {
                    Err(IntErrorKind::NegOverflow)
                } else {
                    Ok(w)
                }
            },
        }
    }
}

/// What `str::parse::<i64>` gives: an empty string is refused as empty and
/// a lone `+` or `-` as an invalid digit; otherwise an optional sign and
/// then the digits, read as `digits_scan` says.
pub open spec fn parse_i64(s: Seq<char>) -> Result<i64, IntErrorKind> {
    if s.len() == 0 {
        Err(IntErrorKind::Empty)
    } else if s.len() == 1 && (s[0] == '+' || s[0] == '-') {
        Err(IntErrorKind::InvalidDigit)
    } else {
        let neg = s[0] == '-';
        let ds = if s[0] == '-' || s[0] == '+' { s.drop_first() } else { s };
        match digits_scan(ds, neg) {
            Ok(v) => Ok(v as i64),
            Err(e) => Err(e),
        }
    }
}

proof fn lemma_scan_err_persists(ds: Seq<char>, neg: bool, k: int)
    requires
        0 <= k <= ds.len(),
        digits_scan(ds.take(k), neg) is Err,
    ensures
        digits_scan(ds, neg) == digits_scan(ds.take(k), neg),
    decreases ds.len() - k,
{
    if k == ds.len() {
        assert(ds.take(k) =~= ds);
    } else {
        assert(ds.drop_last().take(k) =~= ds.take(k));
        lemma_scan_err_persists(ds.drop_last(), neg, k);
    }
}

/// Reads `s[lo..hi]` as a decimal `i64`, as `str::parse::<i64>` does.
pub fn parse_i64_str(s: &Vec<char>, lo: usize, hi: usize) -> (r: Result<i64, IntErrorKind>)
    requires
        lo <= hi <= s.len(),
    ensures
        r == parse_i64(s@.subrange(lo as int, hi as int)),
{
    let ghost t = s@.subrange(lo as int, hi as int);
    if lo == hi {
        return Err(IntErrorKind::Empty);
    }
    let first = s[lo];
    if hi - lo == 1 && (first == '+' || first == '-') {
        return Err(IntErrorKind::InvalidDigit);
    }
    let neg = first == '-';
    let start = if first == '-' || first == '+' { lo + 1 } else { lo };
    let ghost ds = s@.subrange(start as int, hi as int);
    proof {
        if first == '-' || first == '+' {
            assert(ds =~= t.drop_first());
        } else {
            assert(ds =~= t);
        }
        assert(ds.take(0) =~= Seq::<char>::empty());
    }
    let mut acc: i128 = 0;
    let mut i = start;
    while i < hi
        invariant
            lo <= start <= i <= hi <= s.len(),
            ds == s@.subrange(start as int, hi as int),
            t == s@.subrange(lo as int, hi as int),
            t.len() > 0,
            !(t.len() == 1 && (t[0] == '+' || t[0] == '-')),
            neg == (t[0] == '-'),
            ds == (if t[0] == '-' || t[0] == '+' { t.drop_first() } else { t }),
            digits_scan(ds.take(i - start), neg) == Ok::<int, IntErrorKind>(acc as int),
            i64::MIN <= acc <= i64::MAX,
        decreases hi - i,
    {
        let c = s[i];
        let ghost pre = ds.take(i - start);
        let ghost next = ds.take(i - start + 1);
        proof {
            assert(next.drop_last() =~= pre);
            assert(next.last() == c);
        }
        if !('0' <= c && c <= '9') {
            proof {
                assert(digits_scan(next, neg) == Err::<int, IntErrorKind>(IntErrorKind::InvalidDigit));
                lemma_scan_err_persists(ds, neg, i - start + 1);
            }
            return Err(IntErrorKind::InvalidDigit);
        }
        let d: i128 = if c == '0' { 0 } else if c == '1' { 1 } else if c == '2' { 2 } else if c == '3' {
            3
        } else if c == '4' { 4 } else if c == '5' { 5 } else if c == '6' { 6 } else if c == '7' {
            7
        } else if c == '8' { 8 } else { 9 };
        assert(d == digit_value(c));
        let w = if neg { acc * 10 - d } else { acc * 10 + d };
        if w > i64::MAX as i128 {
            proof {
                assert(digits_scan(next, neg) == Err::<int, IntErrorKind>(IntErrorKind::PosOverflow));
                lemma_scan_err_persists(ds, neg, i - start + 1);
            }
            return Err(IntErrorKind::PosOverflow);
        }
        if w < i64::MIN as i128 {
            proof {
                assert(digits_scan(next, neg) == Err::<int, IntErrorKind>(IntErrorKind::NegOverflow));
                lemma_scan_err_persists(ds, neg, i - start + 1);
            }
            return Err(IntErrorKind::NegOverflow);
        }
        proof {
            assert(digits_scan(next, neg) == Ok::<int, IntErrorKind>(w as int));
        }
        acc = w;
        i += 1;
    }
    assert(ds.take(hi - start) =~= ds);
    Ok(acc as i64)
}

pub open spec fn digit_char(d: int) -> char {
    if d == 0 { '0' } else if d == 1 { '1' } else if d == 2 { '2' } else if d == 3 { '3' } else if d == 4 {
        '4'
    } else if d == 5 { '5' } else if d == 6 { '6' } else if d == 7 { '7' } else if d == 8 { '8' } else {
        '9'
    }
}

/// `n` written in decimal, with no leading zeros (`0` is `"0"`).
pub open spec fn decimal(n: nat) -> Seq<char>
    decreases n,
{
    if n < 10 {
        seq![digit_char(n as int)]
    } else {
        decimal(n / 10).push(digit_char((n % 10) as int))
    }
}

/// `n` written in decimal, with a `-` in front where it is negative.
pub open spec fn decimal_int(n: int) -> Seq<char> {
    if n < 0 {
        seq!['-'] + decimal((-n) as nat)
    } else {
        decimal(n as nat)
    }
}

fn digit_to_char(d: u64) -> (c: char)
    requires
        d < 10,
    ensures
        c == digit_char(d as int),
{
    if d == 0 { '0' } else if d == 1 { '1' } else if d == 2 { '2' } else if d == 3 { '3' } else if d == 4 {
        '4'
    } else if d == 5 { '5' } else if d == 6 { '6' } else if d == 7 { '7' } else if d == 8 { '8' } else {
        '9'
    }
}

/// Appends `n` in decimal to `s`.
pub fn push_decimal(s: &mut String, n: u64)
    ensures
        final(s)@ == old(s)@ + decimal(n as nat),
    decreases n,
{
    if n >= 10 {
        push_decimal(s, n / 10);
    }
    push_char(s, digit_to_char(n % 10));
    proof {
        if n < 10 {
            assert(decimal(n as nat) =~= seq![digit_char(n as int)]);
        }
    }
}

/// Appends `n` in decimal to `s`, as `Display` writes an `i64`.
pub fn push_decimal_i64(s: &mut String, n: i64)
    ensures
        final(s)@ == old(s)@ + decimal_int(n as int),
{
    if n < 0 {
        push_char(s, '-');
        let m: u64 = if n == i64::MIN { 0x8000_0000_0000_0000 } else { (-n) as u64 };
        push_decimal(s, m);
        assert(old(s)@.push('-') + decimal(m as nat) =~= old(s)@ + (seq!['-'] + decimal(m as nat)));
    } else {
        push_decimal(s, n as u64);
    }
}

proof fn lemma_digit_char(d: int)
    requires
        0 <= d < 10,
    ensures
        is_digit(digit_char(d)),
        digit_value(digit_char(d)) == d,
{
    assert('0' as int == 48 && '1' as int == 49 && '2' as int == 50 && '3' as int == 51);
    assert('4' as int == 52 && '5' as int == 53 && '6' as int == 54 && '7' as int == 55);
    assert('8' as int == 56 && '9' as int == 57);
}

proof fn lemma_decimal_digits(n: nat)
    ensures
        decimal(n).len() > 0,
        all_digits(decimal(n)),
        digits_value(decimal(n)) == n,
    decreases n,
{
    lemma_digit_char((n % 10) as int);
    if n < 10 {
        lemma_digit_char(n as int);
        assert(decimal(n).drop_last() =~= Seq::<char>::empty());
        assert(decimal(n).last() == digit_char(n as int));
        assert(digits_value(decimal(n)) == digits_value(decimal(n).drop_last()) * 10 + digit_value(decimal(n).last()));
    }
    if n >= 10 {
        lemma_decimal_digits(n / 10);
        let s = decimal(n);
        assert(s.drop_last() =~= decimal(n / 10));
        assert(s.last() == digit_char((n % 10) as int));
        assert(digits_value(s) == digits_value(s.drop_last()) * 10 + digit_value(s.last()));
        assert(n == (n / 10) * 10 + n % 10);
        assert forall|i: int| 0 <= i < s.len() implies is_digit(#[trigger] s[i]) by {
            if i < s.len() - 1 {
                assert(s[i] == decimal(n / 10)[i]);
            }
        }
    }
}

proof fn lemma_scan_decimal(m: nat, neg: bool)
    requires
        neg ==> m <= 0x8000_0000_0000_0000,
        !neg ==> m <= 0x7fff_ffff_ffff_ffff,
    ensures
        digits_scan(decimal(m), neg) == Ok::<int, IntErrorKind>(if neg { -(m as int) } else { m as int }),
    decreases m,
{
    lemma_digit_char((m % 10) as int);
    let s = decimal(m);
    if m < 10 {
        lemma_digit_char(m as int);
        assert(s.drop_last() =~= Seq::<char>::empty());
        assert(s.last() == digit_char(m as int));
        assert(digits_scan(Seq::<char>::empty(), neg) == Ok::<int, IntErrorKind>(0));
    } else {
        lemma_scan_decimal(m / 10, neg);
        assert(s.drop_last() =~= decimal(m / 10));
        assert(s.last() == digit_char((m % 10) as int));
        assert(m == (m / 10) * 10 + m % 10);
    }
}

/// Writing an integer in decimal and reading it back as `str::parse::<i64>`
/// does gives the integer back: a row id put into a query is the row id
/// read out of the answer.
pub proof fn lemma_i64_decimal_round_trip(n: i64)
    ensures
        parse_i64(decimal_int(n as int)) == Ok::<i64, IntErrorKind>(n),
{
    if n < 0 {
        let m = (-n) as nat;
        lemma_decimal_digits(m);
        lemma_scan_decimal(m, true);
        let s = decimal_int(n as int);
        assert(s.drop_first() =~= decimal(m));
        assert(s[0] == '-');
    } else {
        lemma_decimal_digits(n as nat);
        lemma_scan_decimal(n as nat, false);
        let s = decimal_int(n as int);
        assert(is_digit(s[0]));
    }
}

} // verus!
