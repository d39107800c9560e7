//! A number of seconds written as `f64::from_str` reads it (optional sign,
//! digits with an optional point, optional exponent, or `inf`, `infinity`,
//! `nan`), turned into whole milliseconds exactly: truncated, held at
//! `u64::MAX`, and zero for negative values and NaN.
use vstd::prelude::*;
use crate::number::{
    all_digit_chars, all_digits, digit_value, digits_value, digits_value_capped, is_digit,
};
use crate::text::{
    chars_of, concat_chars, copy_chars, lemma_split_nonempty, slice_chars, split, split_chars,
    views,
};

verus! {

pub open spec fn pow10(n: nat) -> nat
    decreases n,
{
    if n == 0 {
        1
    } else {
        10 * pow10((n - 1) as nat)
    }
}

/// `n` times ten to the power `s`, rounded down.
pub open spec fn scaled(n: nat, s: int) -> nat {
    if s >= 0 {
        n * pow10(s as nat)
    } else {
        n / pow10((-s) as nat)
    }
}

pub open spec fn sat(x: nat) -> u64 {
    if x > u64::MAX {
        u64::MAX
    } else {
        x as u64
    }
}

/// The code of `c` with ASCII capitals made small.
pub open spec fn lower_code(c: char) -> int {
    if 65 <= (c as u32) <= 90 {
        (c as u32) + 32
    } else {
        c as u32 as int
    }
}

/// `s` equals the small-letter word `w` when case is ignored.
pub open spec fn same_ignoring_case(s: Seq<char>, w: Seq<char>) -> bool {
    s.len() == w.len() && forall|i: int| 0 <= i < s.len() ==> lower_code(#[trigger] s[i]) == (w[i] as u32 as int)
}

/// The index of the first `e` or `E` at or after `from`.
pub open spec fn first_exp(s: Seq<char>, from: int) -> Option<int>
    decreases s.len() - from,
{
    if from < 0 || from >= s.len() {
        None
    } else if s[from] == 'e' || s[from] == 'E' {
        Some(from)
    } else {
        first_exp(s, from + 1)
    }
}

/// The digits of a mantissa `ddd`, `ddd.`, `.ddd` or `ddd.ddd`, point removed.
pub open spec fn mantissa_digits(m: Seq<char>) -> Seq<char> {
    let p = split(m, '.');
    if p.len() == 2 {
        p[0] + p[1]
    } else {
        p[0]
    }
}

/// The number of digits after the point.
pub open spec fn frac_len(m: Seq<char>) -> nat {
    let p = split(m, '.');
    if p.len() == 2 {
        p[1].len()
    } else {
        0
    }
}

pub open spec fn mantissa_ok(m: Seq<char>) -> bool {
    let p = split(m, '.');
    &&& p.len() == 1 || p.len() == 2
    &&& all_digits(p[0])
    &&& p.len() == 2 ==> all_digits(p[1])
    &&& mantissa_digits(m).len() > 0
}

/// The digits of an exponent, without its sign.
pub open spec fn exp_digits(x: Seq<char>) -> Seq<char> {
    if x.len() > 0 && (x[0] == '+' || x[0] == '-') {
        x.drop_first()
    } else {
        x
    }
}

pub open spec fn exp_ok(x: Seq<char>) -> bool {
    exp_digits(x).len() > 0 && all_digits(exp_digits(x))
}

pub open spec fn exp_value(x: Seq<char>) -> int {
    if x.len() > 0 && x[0] == '-' {
        -digits_value(exp_digits(x))
    } else {
        digits_value(exp_digits(x)) as int
    }
}

/// Milliseconds from a finite unsigned number `b` (no sign): zero where it
/// is not one.
pub open spec fn unsigned_millis(b: Seq<char>) -> u64 {
    match first_exp(b, 0) {
        Some(i) => if mantissa_ok(b.take(i)) && exp_ok(b.skip(i + 1)) {
            sat(
                scaled(
                    digits_value(mantissa_digits(b.take(i))),
                    exp_value(b.skip(i + 1)) + 3 - frac_len(b.take(i)),
                ),
            )
        } else {
            0
        },
        None => if mantissa_ok(b) {
            sat(scaled(digits_value(mantissa_digits(b)), 3 - frac_len(b)))
        } else {
            0
        },
    }
}

/// Whole milliseconds in the number of seconds that `t` writes; zero where
/// `t` is no number, is negative or is NaN, `u64::MAX` where it is larger
/// (infinity included).
pub open spec fn seconds_millis(t: Seq<char>) -> u64 {
    if t.len() > 0 && t[0] == '-' {
        0
    } else {
        let b = if t.len() > 0 && t[0] == '+' {
            t.drop_first()
        } else {
            t
        };
        if same_ignoring_case(b, "inf"@) || same_ignoring_case(b, "infinity"@) {
            u64::MAX
        } else {
            unsigned_millis(b)
        }
    }
}

proof fn lemma_pow10_pos(n: nat)
    ensures
        pow10(n) >= 1,
    decreases n,
{
    if n > 0 {
        lemma_pow10_pos((n - 1) as nat);
    }
}

proof fn lemma_pow10_mono(a: nat, b: nat)
    requires
        a <= b,
    ensures
        pow10(a) <= pow10(b),
    decreases b,
{
    if a < b {
        lemma_pow10_mono(a, (b - 1) as nat);
        lemma_pow10_pos((b - 1) as nat);
    }
}

proof fn lemma_pow10_big()
    ensures
        pow10(20) > u64::MAX,
{
    reveal_with_fuel(pow10, 21);
}

proof fn lemma_digits_bound(x: Seq<char>)
    requires
        all_digits(x),
    ensures
        digits_value(x) < pow10(x.len()),
    decreases x.len(),
{
    if x.len() > 0 {
        let y = x.drop_last();
        assert(all_digits(y)) by {
            assert forall|k: int| 0 <= k < y.len() implies is_digit(#[trigger] y[k]) by {
                assert(y[k] == x[k]);
            }
        }
        lemma_digits_bound(y);
        assert(is_digit(x[x.len() - 1]));
        let v = digits_value(y);
        let p = pow10(y.len());
        let c = digit_value(x.last());
        assert(c <= 9);
        assert(pow10(x.len()) == 10 * p);
        assert(digits_value(x) == v * 10 + c);
        assert(v * 10 + c < 10 * p) by (nonlinear_arith)
            requires
                v < p,
                c <= 9,
        ;
    }
}

proof fn lemma_digits_split(d: Seq<char>, m: int)
    requires
        0 <= m <= d.len(),
    ensures
        digits_value(d) == digits_value(d.take(m)) * pow10((d.len() - m) as nat) + digits_value(
            d.skip(m),
        ),
    decreases d.len(),
{
    if m == d.len() {
        assert(d.take(m) =~= d);
        assert(d.skip(m) =~= Seq::<char>::empty());
        assert(digits_value(d.skip(m)) == 0);
        assert(pow10(0) == 1);
        assert(digits_value(d) * 1 == digits_value(d));
    } else {
        let y = d.drop_last();
        lemma_digits_split(y, m);
        assert(y.take(m) =~= d.take(m));
        assert(d.skip(m).drop_last() =~= y.skip(m));
        assert(d.skip(m).last() == d.last());
        let a = digits_value(d.take(m));
        let q = pow10((y.len() - m) as nat);
        let r = digits_value(y.skip(m));
        let c = digit_value(d.last());
        assert(((d.len() - m) as nat - 1) as nat == (y.len() - m) as nat);
        assert(pow10((d.len() - m) as nat) == 10 * q);
        assert(digits_value(d) == digits_value(y) * 10 + c);
        assert(digits_value(d.skip(m)) == r * 10 + c);
        assert(digits_value(y) == a * q + r);
        assert((a * q + r) * 10 + c == a * (10 * q) + (r * 10 + c)) by (nonlinear_arith);
        assert(digits_value(d) == a * pow10((d.len() - m) as nat) + digits_value(d.skip(m)));
    }
}

/// Dropping the last `j` digits divides by ten to the `j`, rounding down.
proof fn lemma_drop_digits(d: Seq<char>, j: nat)
    requires
        all_digits(d),
        j <= d.len(),
    ensures
        digits_value(d) / pow10(j) == digits_value(d.take(d.len() - j)),
{
    let m = d.len() - j;
    lemma_digits_split(d, m);
    assert(all_digits(d.skip(m))) by {
        assert forall|k: int| 0 <= k < d.skip(m).len() implies is_digit(#[trigger] d.skip(m)[k]) by {
            assert(d.skip(m)[k] == d[m + k]);
        }
    }
    lemma_digits_bound(d.skip(m));
    lemma_pow10_pos(j);
    vstd::arithmetic::div_mod::lemma_fundamental_div_mod_converse(
        digits_value(d) as int,
        pow10(j) as int,
        digits_value(d.take(m)) as int,
        digits_value(d.skip(m)) as int,
    );
}

proof fn lemma_drop_all_digits(d: Seq<char>, j: nat)
    requires
        all_digits(d),
        j >= d.len(),
    ensures
        digits_value(d) / pow10(j) == 0,
{
    lemma_digits_bound(d);
    lemma_pow10_mono(d.len(), j);
    vstd::arithmetic::div_mod::lemma_fundamental_div_mod_converse(
        digits_value(d) as int,
        pow10(j) as int,
        0,
        digits_value(d) as int,
    );
}

fn same_ignoring_case_exec(s: &Vec<char>, w: &Vec<char>) -> (r: bool)
    ensures
        r == same_ignoring_case(s@, w@),
{
    if s.len() != w.len() {
        return false;
    }
    let mut i: usize = 0;
    while i < s.len()
        invariant
            i <= s.len() == w.len(),
            forall|k: int| 0 <= k < i ==> lower_code(#[trigger] s@[k]) == (w@[k] as u32 as int),
        decreases s.len() - i,
    {
        let u = s[i] as u32;
        let l: u32 = if 65 <= u && u <= 90 {
            u + 32
        } else {
            u
        };
        if l != w[i] as u32 {
            return false;
        }
        i += 1;
    }
    true
}

/// `d` read as a number, times ten to the power `s`, rounded down and held
/// at `u64::MAX`.
fn scale_millis(d: &Vec<char>, s: i128) -> (r: u64)
    requires
        all_digits(d@),
        s > i128::MIN,
    ensures
        r == sat(scaled(digits_value(d@), s as int)),
{
    let cap: u128 = u64::MAX as u128;
    let ghost n = digits_value(d@);
    if s >= 0 {
        let mut acc: u128 = digits_value_capped(d, cap);
        let mut j: i128 = 0;
        assert(pow10(0) == 1);
        assert(n * pow10(0) == n);
        while j < s && acc != 0 && acc != cap
            invariant
                0 <= j <= s,
                cap == u64::MAX,
                acc == if n * pow10(j as nat) > cap { cap as nat } else { n * pow10(j as nat) },
            decreases s - j,
        {
            let ghost x = n * pow10(j as nat);
            assert(pow10((j + 1) as nat) == 10 * pow10(j as nat));
            assert(n * pow10((j + 1) as nat) == x * 10) by (nonlinear_arith)
                requires
                    pow10((j + 1) as nat) == 10 * pow10(j as nat),
                    x == n * pow10(j as nat),
            ;
            let next = acc * 10;
            acc = if next > cap { cap } else { next };
            assert(acc == if x * 10 > cap { cap as int } else { (x * 10) as int }) by (nonlinear_arith)
                requires
                    acc == if next > cap { cap } else { next },
                    next == (if x > cap { cap as int } else { x as int }) * 10,
            ;
            j += 1;
        }
        proof {
            lemma_pow10_mono(j as nat, s as nat);
            lemma_pow10_pos(j as nat);
            let pj = pow10(j as nat);
            let ps = pow10(s as nat);
            if acc == 0 {
                assert(n == 0) by (nonlinear_arith)
                    requires
                        n * pj == 0,
                        pj >= 1,
                ;
                assert(n * ps == 0) by (nonlinear_arith)
                    requires
                        n == 0,
                ;
            } else if acc == cap {
                assert(n * ps >= n * pj) by (nonlinear_arith)
                    requires
                        ps >= pj,
                ;
            }
        }
        acc as u64
    } else {
        let j: u128 = (-s) as u128;
        if j >= d.len() as u128 {
            proof {
                lemma_drop_all_digits(d@, j as nat);
            }
            0
        } else {
            let keep: usize = d.len() - j as usize;
            let t = slice_chars(d, 0, keep);
            assert(t@ =~= d@.take(d.len() - j));
            proof {
                lemma_drop_digits(d@, j as nat);
                assert(all_digits(t@)) by {
                    assert forall|k: int| 0 <= k < t@.len() implies is_digit(#[trigger] t@[k]) by {
                        assert(t@[k] == d@[k]);
                    }
                }
            }
            digits_value_capped(&t, cap) as u64
        }
    }
}

/// The milliseconds of a mantissa `m` with an optional exponent part `x`
/// (the text after `e`), zero where either is malformed.
fn mantissa_millis(m: &Vec<char>, x: Option<&Vec<char>>) -> (r: u64)
    ensures
        r == match x {
            Some(x) => if mantissa_ok(m@) && exp_ok(x@) {
                sat(
                    scaled(digits_value(mantissa_digits(m@)), exp_value(x@) + 3 - frac_len(m@)),
                )
            } else {
                0
            },
            None => if mantissa_ok(m@) {
                sat(scaled(digits_value(mantissa_digits(m@)), 3 - frac_len(m@)))
            } else {
                0
            },
        },
{
    let p = split_chars(m, '.');
    proof {
        lemma_split_nonempty(m@, '.');
    }
    if p.len() > 2 {
        return 0;
    }
    assert(views(p@)[0] == p@[0]@);
    if !all_digit_chars(&p[0]) {
        return 0;
    }
    let digits: Vec<char>;
    let k: usize;
    if p.len() == 2 {
        assert(views(p@)[1] == p@[1]@);
        if !all_digit_chars(&p[1]) {
            return 0;
        }
        digits = concat_chars(&p[0], &p[1]);
        k = p[1].len();
    } else {
        digits = copy_chars(&p[0]);
        k = 0;
    }
    assert(digits@ == mantissa_digits(m@));
    assert(k == frac_len(m@));
    if digits.len() == 0 {
        return 0;
    }
    assert(all_digits(digits@)) by {
        assert forall|i: int| 0 <= i < digits@.len() implies is_digit(#[trigger] digits@[i]) by {
            if i < p@[0]@.len() {
                assert(digits@[i] == p@[0]@[i]);
            } else {
                assert(digits@[i] == p@[1]@[i - p@[0]@.len()]);
            }
        }
    }
    assert(k <= u64::MAX);
    match x {
        None => scale_millis(&digits, 3 - k as i128),
        Some(x) => {
            let neg = x.len() > 0 && x[0] == '-';
            let xd = if x.len() > 0 && (x[0] == '+' || x[0] == '-') {
                let v = slice_chars(x, 1, x.len());
                assert(v@ =~= x@.drop_first());
                v
            } else {
                copy_chars(x)
            };
            assert(xd@ == exp_digits(x@));
            if xd.len() == 0 || !all_digit_chars(&xd) {
                return 0;
            }
            let cap: u128 = 0x10_0000_0000_0000_0000_0000_0000;
            let ev = digits_value_capped(&xd, cap);
            let ghost n = digits_value(digits@);
            let ghost s = exp_value(x@) + 3 - k;
            if ev == cap {
                if neg {
                    assert(digits.len() <= u64::MAX);
                    proof {
                        lemma_drop_all_digits(digits@, (-s) as nat);
                    }
                    0
                } else {
                    let nz = digits_value_capped(&digits, 1);
                    if nz == 0 {
                        assert(n == 0);
                        assert(n * pow10(s as nat) == 0) by (nonlinear_arith)
                            requires
                                n == 0,
                        ;
                        0
                    } else {
                        proof {
                            lemma_pow10_mono(20, s as nat);
                            lemma_pow10_big();
                            let q = pow10(s as nat);
                            assert(n * q >= q) by (nonlinear_arith)
                                requires
                                    n >= 1,
                            ;
                        }
                        u64::MAX
                    }
                }
            } else {
                let e: i128 = if neg {
                    -(ev as i128)
                } else {
                    ev as i128
                };
                scale_millis(&digits, e + 3 - k as i128)
            }
        },
    }
}

/// Whole milliseconds in a number of seconds written as text.
pub fn seconds_to_millis(t: &Vec<char>) -> (r: u64)
    ensures
        r == seconds_millis(t@),
{
    if t.len() > 0 && t[0] == '-' {
        return 0;
    }
    let b = if t.len() > 0 && t[0] == '+' {
        let v = slice_chars(t, 1, t.len());
        assert(v@ =~= t@.drop_first());
        v
    } else {
        copy_chars(t)
    };
    if same_ignoring_case_exec(&b, &chars_of("inf")) || same_ignoring_case_exec(
        &b,
        &chars_of("infinity"),
    ) {
        return u64::MAX;
    }
    let mut i: usize = 0;
    while i < b.len() && b[i] != 'e' && b[i] != 'E'
        invariant
            i <= b.len(),
            first_exp(b@, 0) == first_exp(b@, i as int),
        decreases b.len() - i,
    {
        i += 1;
    }
    if i < b.len() {
        let m = slice_chars(&b, 0, i);
        let x = slice_chars(&b, i + 1, b.len());
        assert(m@ =~= b@.take(i as int));
        assert(x@ =~= b@.skip(i + 1));
        mantissa_millis(&m, Some(&x))
    } else {
        mantissa_millis(&b, None)
    }
}

} // verus!
