//! Decimal numbers in text: unsigned integers, their rendering, and
//! fixed-point values such as `12345.67` read in thousandths.
use vstd::prelude::*;
use crate::text::{copy_chars, lemma_split_nonempty, slice_chars, split, split_chars, views};

verus! {

pub open spec fn is_digit(c: char) -> bool {
    48 <= (c as u32) <= 57
}

pub open spec fn digit_value(c: char) -> nat {
    ((c as u32) - 48) as nat
}

pub open spec fn all_digits(s: Seq<char>) -> bool {
    forall|i: int| 0 <= i < s.len() ==> is_digit(#[trigger] s[i])
}

/// The value of a string of decimal digits, most significant first.
pub open spec fn digits_value(s: Seq<char>) -> nat
    decreases s.len(),
{
    if s.len() == 0 {
        0
    } else {
        digits_value(s.drop_last()) * 10 + digit_value(s.last())
    }
}

/// Why a text is not an unsigned integer.
#[derive(Debug, Clone, Copy, PartialEq, Eq, Structural)]
pub enum NumError {
    Empty,
    InvalidDigit,
    PosOverflow,
}

impl NumError {
    /// The message that describes the failure.
    pub fn reason(&self) -> (r: String)
        ensures
            r@ == num_error_reason(*self),
    {
        match self {
            NumError::Empty => String::from_str("cannot parse integer from empty string"),
            NumError::InvalidDigit => String::from_str("invalid digit found in string"),
            NumError::PosOverflow => String::from_str("number too large to fit in target type"),
        }
    }
}

pub open spec fn num_error_reason(e: NumError) -> Seq<char> {
    match e {
        NumError::Empty => "cannot parse integer from empty string"@,
        NumError::InvalidDigit => "invalid digit found in string"@,
        NumError::PosOverflow => "number too large to fit in target type"@,
    }
}

/// The digits of an unsigned number: the text without one leading `+`.
pub open spec fn unsigned_digits(s: Seq<char>) -> Seq<char> {
    if s.len() > 0 && s[0] == '+' {
        s.drop_first()
    } else {
        s
    }
}

/// A non-empty digit string read as a `u64`.
pub open spec fn digits_result(d: Seq<char>) -> Result<u64, NumError> {
    if d.len() == 0 || !all_digits(d) {
        Err(NumError::InvalidDigit)
    } else if digits_value(d) > u64::MAX {
        Err(NumError::PosOverflow)
    } else {
        Ok(digits_value(d) as u64)
    }
}

/// A text read as a `u64`: an optional `+`, then one or more decimal
/// digits and nothing else.
pub open spec fn parse_u64_spec(s: Seq<char>) -> Result<u64, NumError> {
    if s.len() == 0 {
        Err(NumError::Empty)
    } else {
        digits_result(unsigned_digits(s))
    }
}

pub open spec fn digit_char(d: nat) -> char {
    ((d + 48) as u8) as char
}

/// The decimal rendering of `n`, without leading zeros.
pub open spec fn dec(n: nat) -> Seq<char>
    decreases n,
{
    if n < 10 {
        seq![digit_char(n)]
    } else {
        dec(n / 10).push(digit_char(n % 10))
    }
}

/// A decimal number written `ddd` or `ddd.ddd`.
pub open spec fn is_decimal(t: Seq<char>) -> bool {
    let p = split(t, '.');
    &&& p[0].len() > 0 && all_digits(p[0])
    &&& p.len() == 1 || (p.len() == 2 && p[1].len() > 0 && all_digits(p[1]))
}

/// The first three digits of a fraction, padded with zeros.
pub open spec fn thousandths(f: Seq<char>) -> nat {
    digits_value((f + seq!['0', '0', '0']).take(3))
}

/// A decimal number times a thousand, with the rest of the fraction dropped.
pub open spec fn milli_value(t: Seq<char>) -> nat {
    let p = split(t, '.');
    if p.len() == 2 {
        digits_value(p[0]) * 1000 + thousandths(p[1])
    } else {
        digits_value(p[0]) * 1000
    }
}

/// `milli_value`, held at `u64::MAX` where it is larger.
pub open spec fn milli_value_sat(t: Seq<char>) -> u64 {
    if milli_value(t) > u64::MAX {
        u64::MAX
    } else {
        milli_value(t) as u64
    }
}

pub fn is_digit_char(c: char) -> (r: bool)
    ensures
        r == is_digit(c),
{
    let u = c as u32;
    48 <= u && u <= 57
}

pub fn parse_u64(s: &Vec<char>) -> (r: Result<u64, NumError>)
    ensures
        r == parse_u64_spec(s@),
{
    if s.len() == 0 {
        return Err(NumError::Empty);
    }
    let d = if s[0] == '+' {
        slice_chars(s, 1, s.len())
    } else {
        copy_chars(s)
    };
    assert(d@ =~= unsigned_digits(s@));
    if d.len() == 0 {
        return Err(NumError::InvalidDigit);
    }
    parse_digits(&d)
}

fn parse_digits(s: &Vec<char>) -> (r: Result<u64, NumError>)
    requires
        s.len() > 0,
    ensures
        r == digits_result(s@),
{
    let mut acc: u64 = 0;
    let mut over = false;
    let mut i: usize = 0;
    while i < s.len()
        invariant
            i <= s.len(),
            all_digits(s@.take(i as int)),
            !over ==> acc as nat == digits_value(s@.take(i as int)),
            over ==> digits_value(s@.take(i as int)) > u64::MAX,
        decreases s.len() - i,
    {
        let c = s[i];
        if !is_digit_char(c) {
            assert(!all_digits(s@));
            return Err(NumError::InvalidDigit);
        }
        let d = (c as u32 - 48) as u64;
        proof {
            assert(s@.take(i + 1).drop_last() =~= s@.take(i as int));
            assert(s@.take(i + 1).last() == c);
        }
        if !over {
            if acc > (u64::MAX - d) / 10 {
                over = true;
                assert(digits_value(s@.take(i + 1)) > u64::MAX) by (nonlinear_arith)
                    requires
                        digits_value(s@.take(i + 1)) == acc * 10 + d,
                        acc > (u64::MAX - d) / 10,
                        d <= 9,
                ;
            } else {
                assert(acc * 10 + d <= u64::MAX) by (nonlinear_arith)
                    requires
                        acc <= (u64::MAX - d) / 10,
                        d <= 9,
                ;
                acc = acc * 10 + d;
            }
        } else {
            assert(digits_value(s@.take(i + 1)) >= digits_value(s@.take(i as int))) by (
            nonlinear_arith)
                requires
                    digits_value(s@.take(i + 1)) == digits_value(s@.take(i as int)) * 10
                        + digit_value(c),
            ;
        }
        assert(all_digits(s@.take(i + 1)));
        i += 1;
    }
    assert(s@.take(s.len() as int) =~= s@);
    if over {
        Err(NumError::PosOverflow)
    } else {
        Ok(acc)
    }
}

/// Appends the decimal rendering of `n`.
pub fn push_decimal(out: &mut Vec<char>, n: u64)
    ensures
        final(out)@ == old(out)@ + dec(n as nat),
    decreases n,
{
    if n >= 10 {
        push_decimal(out, n / 10);
    }
    let d = (n % 10) as u8;
    out.push((d + 48) as char);
    assert(digit_char((n % 10) as nat) == (d + 48) as char);
    if n >= 10 {
        assert(dec(n as nat) == dec((n / 10) as nat).push(digit_char((n % 10) as nat)));
    } else {
        assert(dec(n as nat) == seq![digit_char(n as nat)]);
    }
    assert(final(out)@ =~= old(out)@ + dec(n as nat));
}

pub fn all_digit_chars(s: &Vec<char>) -> (r: bool)
    ensures
        r == all_digits(s@),
{
    let mut i: usize = 0;
    while i < s.len()
        invariant
            i <= s.len(),
            all_digits(s@.take(i as int)),
        decreases s.len() - i,
    {
        if !is_digit_char(s[i]) {
            return false;
        }
        assert(all_digits(s@.take(i + 1)));
        i += 1;
    }
    assert(s@.take(s.len() as int) =~= s@);
    true
}

/// The value of a digit string, held at `cap` where it is larger.
pub(crate) fn digits_value_capped(s: &Vec<char>, cap: u128) -> (r: u128)
    requires
        all_digits(s@),
        cap <= 0x10_0000_0000_0000_0000_0000_0000,
    ensures
        r == if digits_value(s@) > cap { cap as nat } else { digits_value(s@) },
{
    let mut acc: u128 = 0;
    let mut i: usize = 0;
    while i < s.len()
        invariant
            i <= s.len(),
            all_digits(s@),
            cap <= 0x10_0000_0000_0000_0000_0000_0000,
            acc == if digits_value(s@.take(i as int)) > cap { cap as nat } else { digits_value(
                s@.take(i as int),
            ) },
        decreases s.len() - i,
    {
        let c = s[i];
        assert(is_digit(s@[i as int]));
        let d = (c as u32 - 48) as u128;
        let ghost x = digits_value(s@.take(i as int));
        proof {
            assert(s@.take(i + 1).drop_last() =~= s@.take(i as int));
        }
        let next = acc * 10 + d;
        acc = if next > cap { cap } else { next };
        assert(acc == if x * 10 + d > cap { cap as int } else { x * 10 + d }) by (nonlinear_arith)
            requires
                acc == if next > cap { cap } else { next },
                next == (if x > cap { cap as int } else { x as int }) * 10 + d,
                d <= 9,
        ;
        i += 1;
    }
    assert(s@.take(s.len() as int) =~= s@);
    acc
}

fn thousandths_of(f: &Vec<char>) -> (r: u128)
    requires
        all_digits(f@),
    ensures
        r == thousandths(f@),
        r < 1000,
{
    let ghost padded = f@ + seq!['0', '0', '0'];
    let mut v: u128 = 0;
    let mut k: usize = 0;
    while k < 3
        invariant
            k <= 3,
            all_digits(f@),
            padded == f@ + seq!['0', '0', '0'],
            v == digits_value(padded.take(k as int)),
            v < 1000,
            k == 0 ==> v == 0,
            k == 1 ==> v < 10,
            k == 2 ==> v < 100,
        decreases 3 - k,
    {
        let d: u128 = if k < f.len() {
            assert(is_digit(f@[k as int]));
            (f[k] as u32 - 48) as u128
        } else {
            0
        };
        assert(padded[k as int] == if k < f.len() { f@[k as int] } else { '0' });
        assert(padded.take(k + 1).drop_last() =~= padded.take(k as int));
        assert(d == digit_value(padded[k as int]));
        v = v * 10 + d;
        k += 1;
    }
    v
}

/// Reads a decimal number in thousandths (see `milli_value_sat`), or `None`
/// where the text is not a decimal number.
pub fn parse_millis(t: &Vec<char>) -> (r: Option<u64>)
    ensures
        r == if is_decimal(t@) { Some(milli_value_sat(t@)) } else { None::<u64> },
{
    let p = split_chars(t, '.');
    proof {
        lemma_split_nonempty(t@, '.');
    }
    assert(views(p@)[0] == p@[0]@);
    if p[0].len() == 0 || !all_digit_chars(&p[0]) {
        return None;
    }
    if p.len() > 2 {
        return None;
    }
    let frac: u128 = if p.len() == 2 {
        assert(views(p@)[1] == p@[1]@);
        if p[1].len() == 0 || !all_digit_chars(&p[1]) {
            return None;
        }
        thousandths_of(&p[1])
    } else {
        0
    };
    let whole = digits_value_capped(&p[0], u64::MAX as u128);
    let cap: u128 = u64::MAX as u128;
    let total = whole * 1000 + frac;
    let r: u64 = if total > cap { u64::MAX } else { total as u64 };
    proof {
        let x = digits_value(p@[0]@);
        let m = milli_value(t@);
        assert(m == x * 1000 + frac);
        assert((r as int) == if m > cap { cap as int } else { m as int }) by (nonlinear_arith)
            requires
                r == if total > cap { cap } else { total },
                total == (if x > cap { cap as int } else { x as int }) * 1000 + frac,
                m == x * 1000 + frac,
                frac < 1000,
        ;
    }
    Some(r)
}

} // verus!
