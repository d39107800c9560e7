//! IPv4 addresses between dotted-decimal text and their 32-bit value.
use vstd::prelude::*;
use crate::number::{
    all_digits, dec, digit_char, digit_value, digits_value, is_digit, parse_u64, parse_u64_spec,
    push_decimal,
};
use crate::text::{chars_of, split, split_chars, string_of, trim, trim_chars, views};

verus! {

/// A piece of an address read as a number: a `u32` where it is one, else zero.
pub open spec fn octet_value(t: Seq<char>) -> nat {
    match parse_u64_spec(t) {
        Ok(v) => if v <= u32::MAX {
            v as nat
        } else {
            0
        },
        Err(_) => 0,
    }
}

/// The numbers of the non-empty trimmed pieces, in order.
pub open spec fn octets(pieces: Seq<Seq<char>>) -> Seq<nat>
    decreases pieces.len(),
{
    if pieces.len() == 0 {
        Seq::<nat>::empty()
    } else {
        let rest = octets(pieces.drop_last());
        let t = trim(pieces.last());
        if t.len() == 0 {
            rest
        } else {
            rest.push(octet_value(t))
        }
    }
}

pub open spec fn octet_at(o: Seq<nat>, k: int) -> nat {
    if 0 <= k < o.len() {
        o[k]
    } else {
        0
    }
}

/// The value of a dotted address, first octet most significant; missing
/// octets count as zero, pieces past the fourth are ignored, and the sum
/// is taken modulo 2^32.
pub open spec fn ipv4_value(s: Seq<char>) -> u32 {
    let o = octets(split(s, '.'));
    ((octet_at(o, 0) * 0x1000000 + octet_at(o, 1) * 0x10000 + octet_at(o, 2) * 0x100 + octet_at(
        o,
        3,
    )) % 0x100000000) as u32
}

/// The dotted-decimal text of a 32-bit address value.
pub open spec fn ipv4_text(i: u32) -> Seq<char> {
    dec((i / 0x1000000) as nat) + "."@ + dec(((i / 0x10000) % 0x100) as nat) + "."@ + dec(
        ((i / 0x100) % 0x100) as nat,
    ) + "."@ + dec((i % 0x100) as nat)
}

/// Converts a dotted-decimal IPv4 address to its 32-bit value, the first
/// octet in the most significant byte.
pub fn ipv4_to_int(s: &str) -> (r: u32)
    ensures
        r == ipv4_value(s@),
{
    let text = chars_of(s);
    let pieces = split_chars(&text, '.');
    let ghost ps = views(pieces@);
    let mut octs: Vec<u64> = Vec::new();
    let mut i: usize = 0;
    while i < pieces.len()
        invariant
            i <= pieces.len(),
            ps == views(pieces@),
            octs@.len() == octets(ps.take(i as int)).len(),
            forall|k: int|
                0 <= k < octs@.len() ==> octs@[k] as nat == #[trigger] octets(ps.take(i as int))[k],
            forall|k: int| 0 <= k < octs@.len() ==> octs@[k] <= u32::MAX,
        decreases pieces.len() - i,
    {
        assert(ps.take(i + 1).drop_last() =~= ps.take(i as int));
        assert(ps[i as int] == pieces@[i as int]@);
        let t = trim_chars(&pieces[i]);
        if t.len() > 0 {
            let v: u64 = match parse_u64(&t) {
                Ok(v) => if v <= u32::MAX as u64 {
                    v
                } else {
                    0
                },
                Err(_) => 0,
            };
            octs.push(v);
        }
        i += 1;
    }
    assert(ps.take(pieces.len() as int) =~= ps);
    let a: u64 = if octs.len() > 0 { octs[0] } else { 0 };
    let b: u64 = if octs.len() > 1 { octs[1] } else { 0 };
    let c: u64 = if octs.len() > 2 { octs[2] } else { 0 };
    let d: u64 = if octs.len() > 3 { octs[3] } else { 0 };
    assert(a * 0x1000000 <= 0xffff_ffff * 0x1000000) by (nonlinear_arith)
        requires
            a <= 0xffff_ffff,
    ;
    assert(b * 0x10000 <= 0xffff_ffff * 0x10000) by (nonlinear_arith)
        requires
            b <= 0xffff_ffff,
    ;
    assert(c * 0x100 <= 0xffff_ffff * 0x100) by (nonlinear_arith)
        requires
            c <= 0xffff_ffff,
    ;
    let sum: u64 = a * 0x1000000 + b * 0x10000 + c * 0x100 + d;
    (sum % 0x100000000) as u32
}

/// Converts a 32-bit address value to dotted-decimal text.
pub fn int_to_ipv4(i: u32) -> (r: String)
    ensures
        r@ == ipv4_text(i),
{
    let mut v: Vec<char> = Vec::new();
    push_decimal(&mut v, (i / 0x1000000) as u64);
    v.push('.');
    push_decimal(&mut v, ((i / 0x10000) % 0x100) as u64);
    v.push('.');
    push_decimal(&mut v, ((i / 0x100) % 0x100) as u64);
    v.push('.');
    push_decimal(&mut v, (i % 0x100) as u64);
    proof {
        reveal_strlit(".");
        assert(v@ =~= ipv4_text(i));
    }
    string_of(&v)
}

/// One octet written canonically: decimal digits without a leading zero
/// (but for `0` itself), at most 255.
pub open spec fn is_octet_text(t: Seq<char>) -> bool {
    t.len() > 0 && all_digits(t) && (t.len() == 1 || digit_value(t[0]) != 0) && digits_value(t) <= 255
}

/// A canonical dotted-decimal IPv4 address: four octets joined by `.`.
pub open spec fn is_dotted_quad(s: Seq<char>) -> bool {
    let p = split(s, '.');
    p.len() == 4 && forall|k: int| 0 <= k < 4 ==> is_octet_text(#[trigger] p[k])
}

/// The pieces joined again with `sep` between them.
pub open spec fn join(ps: Seq<Seq<char>>, sep: char) -> Seq<char>
    decreases ps.len(),
{
    if ps.len() == 0 {
        Seq::<char>::empty()
    } else if ps.len() == 1 {
        ps[0]
    } else {
        join(ps.drop_last(), sep) + seq![sep] + ps.last()
    }
}

proof fn lemma_join_split(s: Seq<char>, sep: char)
    ensures
        join(split(s, sep), sep) == s,
    decreases s.len(),
{
    if s.len() == 0 {
        assert(split(s, sep) == seq![Seq::<char>::empty()]);
        assert(s =~= Seq::<char>::empty());
    } else {
        let t = s.drop_last();
        let rest = split(t, sep);
        lemma_join_split(t, sep);
        crate::text::lemma_split_nonempty(t, sep);
        if s.last() == sep {
            let e = Seq::<char>::empty();
            assert(rest.push(e).drop_last() =~= rest);
            assert(s =~= t + seq![sep] + e);
        } else {
            let n = rest.len();
            let upd = rest.update(n - 1, rest.last().push(s.last()));
            if n == 1 {
                assert(s =~= t.push(s.last()));
            } else {
                assert(upd.drop_last() =~= rest.drop_last());
                assert(upd.last() == rest.last().push(s.last()));
                assert(split(s, sep) == upd);
                assert(join(upd, sep) == join(rest.drop_last(), sep) + seq![sep] + upd.last());
                assert(t == join(rest.drop_last(), sep) + seq![sep] + rest.last());
                assert(s =~= t.push(s.last()));
                assert(s =~= join(rest.drop_last(), sep) + seq![sep] + rest.last().push(s.last()));
            }
        }
    }
}

proof fn lemma_digit_char(c: char)
    requires
        is_digit(c),
    ensures
        digit_char(digit_value(c)) == c,
{
}

proof fn lemma_leading_nonzero(t: Seq<char>)
    requires
        t.len() >= 1,
        all_digits(t),
        digit_value(t[0]) != 0,
    ensures
        digits_value(t) >= 1,
    decreases t.len(),
{
    if t.len() > 1 {
        let u = t.drop_last();
        assert(u[0] == t[0]);
        assert(all_digits(u));
        lemma_leading_nonzero(u);
        let x = digits_value(u);
        let n = digits_value(t);
        assert(n >= 1) by (nonlinear_arith)
            requires
                x >= 1,
                n == x * 10 + digit_value(t.last()),
        ;
    } else {
        assert(t.drop_last() =~= Seq::<char>::empty());
        assert(digits_value(t.drop_last()) == 0);
        assert(t.last() == t[0]);
        assert(is_digit(t[0]));
    }
}

proof fn lemma_dec_digits(t: Seq<char>)
    requires
        t.len() > 0,
        all_digits(t),
        t.len() == 1 || digit_value(t[0]) != 0,
    ensures
        dec(digits_value(t)) == t,
    decreases t.len(),
{
    assert(is_digit(t.last()));
    lemma_digit_char(t.last());
    if t.len() == 1 {
        assert(t.drop_last() =~= Seq::<char>::empty());
        assert(digits_value(t.drop_last()) == 0);
        assert(digits_value(t) == digit_value(t.last()));
        assert(t =~= seq![t.last()]);
    } else {
        let u = t.drop_last();
        assert(u[0] == t[0]);
        assert(all_digits(u));
        lemma_dec_digits(u);
        lemma_leading_nonzero(u);
        let x = digits_value(u);
        let d = digit_value(t.last());
        let n = digits_value(t);
        assert(n >= 10) by (nonlinear_arith)
            requires
                x >= 1,
                n == x * 10 + d,
        ;
        vstd::arithmetic::div_mod::lemma_fundamental_div_mod_converse(n as int, 10, x as int, d as int);
        assert(dec(n) == dec(n / 10).push(digit_char(n % 10)));
        assert(t =~= u.push(t.last()));
    }
}

proof fn lemma_trim_digits(t: Seq<char>)
    requires
        t.len() > 0,
        all_digits(t),
    ensures
        trim(t) == t,
{
    assert(is_digit(t[0]));
    assert(is_digit(t.last()));
}

proof fn lemma_octet(t: Seq<char>)
    requires
        is_octet_text(t),
    ensures
        trim(t) == t,
        octet_value(t) == digits_value(t),
        dec(digits_value(t)) == t,
{
    lemma_trim_digits(t);
    lemma_dec_digits(t);
}

/// Reading a canonical dotted-decimal address as a number and writing that
/// number back gives the same text.
pub proof fn lemma_ipv4_round_trip(s: Seq<char>)
    requires
        is_dotted_quad(s),
    ensures
        ipv4_text(ipv4_value(s)) == s,
{
    let p = split(s, '.');
    assert(is_octet_text(p[0]) && is_octet_text(p[1]) && is_octet_text(p[2]) && is_octet_text(p[3]));
    lemma_octet(p[0]);
    lemma_octet(p[1]);
    lemma_octet(p[2]);
    lemma_octet(p[3]);
    let v0 = digits_value(p[0]);
    let v1 = digits_value(p[1]);
    let v2 = digits_value(p[2]);
    let v3 = digits_value(p[3]);
    let p1 = p.take(1);
    let p2 = p.take(2);
    let p3 = p.take(3);
    assert(p1.drop_last() =~= Seq::<Seq<char>>::empty());
    assert(p2.drop_last() =~= p1);
    assert(p3.drop_last() =~= p2);
    assert(p.drop_last() =~= p3);
    assert(octets(Seq::<Seq<char>>::empty()) == Seq::<nat>::empty());
    assert(p1.last() == p[0] && p2.last() == p[1] && p3.last() == p[2] && p.last() == p[3]);
    assert(octets(p1) =~= seq![v0]);
    assert(octets(p2) =~= seq![v0, v1]);
    assert(octets(p3) =~= seq![v0, v1, v2]);
    assert(octets(p) =~= seq![v0, v1, v2, v3]);
    let low = v1 * 0x10000 + v2 * 0x100 + v3;
    let sum = v0 * 0x1000000 + low;
    assert(sum < 0x100000000);
    vstd::arithmetic::div_mod::lemma_small_mod(sum as nat, 0x100000000);
    let i = ipv4_value(s);
    assert(i as int == sum);
    vstd::arithmetic::div_mod::lemma_fundamental_div_mod_converse(i as int, 0x1000000, v0 as int, low as int);
    vstd::arithmetic::div_mod::lemma_fundamental_div_mod_converse(i as int, 0x10000, (v0 * 0x100 + v1) as int, (v2 * 0x100 + v3) as int);
    vstd::arithmetic::div_mod::lemma_fundamental_div_mod_converse((v0 * 0x100 + v1) as int, 0x100, v0 as int, v1 as int);
    vstd::arithmetic::div_mod::lemma_fundamental_div_mod_converse(i as int, 0x100, (v0 * 0x10000 + v1 * 0x100 + v2) as int, v3 as int);
    vstd::arithmetic::div_mod::lemma_fundamental_div_mod_converse((v0 * 0x10000 + v1 * 0x100 + v2) as int, 0x100, (v0 * 0x100 + v1) as int, v2 as int);
    lemma_join_split(s, '.');
    assert(p.drop_last().drop_last() =~= p2);
    assert(p2.drop_last() =~= p1);
    assert(join(p1, '.') == p[0]);
    assert(join(p2, '.') == p[0] + seq!['.'] + p[1]);
    assert(join(p3, '.') == join(p2, '.') + seq!['.'] + p[2]);
    assert(join(p, '.') == join(p3, '.') + seq!['.'] + p[3]);
    assert((i / 0x1000000) as nat == v0);
    assert(((i / 0x10000) % 0x100) as nat == v1);
    assert(((i / 0x100) % 0x100) as nat == v2);
    assert((i % 0x100) as nat == v3);
    reveal_strlit(".");
    assert(ipv4_text(i) =~= join(p, '.'));
}

proof fn lemma_split_around(x: Seq<char>, y: Seq<char>, sep: char)
    ensures
        split(x + seq![sep] + y, sep) == split(x, sep) + split(y, sep),
    decreases y.len(),
{
    let s = x + seq![sep] + y;
    crate::text::lemma_split_nonempty(x, sep);
    if y.len() == 0 {
        assert(s.drop_last() =~= x);
        assert(split(y, sep) == seq![Seq::<char>::empty()]);
        assert(split(s, sep) =~= split(x, sep) + split(y, sep));
    } else {
        let y2 = y.drop_last();
        let c = y.last();
        lemma_split_around(x, y2, sep);
        crate::text::lemma_split_nonempty(y2, sep);
        assert(s.drop_last() =~= x + seq![sep] + y2);
        assert(s.last() == c);
        let r = split(y2, sep);
        let big = split(x, sep) + r;
        if c == sep {
            assert(big.push(Seq::<char>::empty()) =~= split(x, sep) + r.push(Seq::<char>::empty()));
        } else {
            assert(big.last() == r.last());
            assert(big.update(big.len() - 1, big.last().push(c)) =~= split(x, sep) + r.update(
                r.len() - 1,
                r.last().push(c),
            ));
        }
    }
}

proof fn lemma_split_without_sep(x: Seq<char>, sep: char)
    requires
        forall|k: int| 0 <= k < x.len() ==> x[k] != sep,
    ensures
        split(x, sep) == seq![x],
    decreases x.len(),
{
    if x.len() == 0 {
        assert(x =~= Seq::<char>::empty());
    } else {
        let x2 = x.drop_last();
        lemma_split_without_sep(x2, sep);
        assert(x2.push(x.last()) =~= x);
        assert(seq![x2].update(0, x2.push(x.last())) =~= seq![x]);
    }
}

proof fn lemma_dec_value(n: nat)
    ensures
        dec(n).len() > 0,
        all_digits(dec(n)),
        digits_value(dec(n)) == n,
    decreases n,
{
    if n < 10 {
        let t = dec(n);
        assert(t.drop_last() =~= Seq::<char>::empty());
        assert(digits_value(t.drop_last()) == 0);
    } else {
        lemma_dec_value(n / 10);
        let t = dec(n);
        assert(t.drop_last() =~= dec(n / 10));
        assert(all_digits(t)) by {
            assert forall|k: int| 0 <= k < t.len() implies is_digit(#[trigger] t[k]) by {
                if k < t.len() - 1 {
                    assert(t[k] == dec(n / 10)[k]);
                }
            }
        }
        vstd::arithmetic::div_mod::lemma_fundamental_div_mod(n as int, 10);
    }
}

proof fn lemma_octet_of_dec(n: nat)
    requires
        n <= 255,
    ensures
        trim(dec(n)) == dec(n),
        trim(dec(n)).len() > 0,
        octet_value(dec(n)) == n,
        forall|k: int| 0 <= k < dec(n).len() ==> dec(n)[k] != '.',
{
    lemma_dec_value(n);
    lemma_trim_digits(dec(n));
    assert forall|k: int| 0 <= k < dec(n).len() implies dec(n)[k] != '.' by {
        assert(is_digit(dec(n)[k]));
    }
}

/// Writing a 32-bit address value as dotted-decimal text and reading the
/// text back gives the same value.
pub proof fn lemma_ipv4_value_round_trip(i: u32)
    ensures
        ipv4_value(ipv4_text(i)) == i,
{
    let a = (i / 0x1000000) as nat;
    let b = ((i / 0x10000) % 0x100) as nat;
    let c = ((i / 0x100) % 0x100) as nat;
    let d = (i % 0x100) as nat;
    assert(i == (i / 0x1000000) * 0x1000000 + ((i / 0x10000) % 0x100) * 0x10000 + ((i / 0x100)
        % 0x100) * 0x100 + i % 0x100) by (bit_vector);
    assert(i / 0x1000000 <= 255) by (bit_vector);
    lemma_octet_of_dec(a);
    lemma_octet_of_dec(b);
    lemma_octet_of_dec(c);
    lemma_octet_of_dec(d);
    let dot = seq!['.'];
    reveal_strlit(".");
    let x1 = dec(a) + dot + dec(b);
    let x2 = x1 + dot + dec(c);
    let x3 = x2 + dot + dec(d);
    assert(ipv4_text(i) == x3);
    lemma_split_without_sep(dec(a), '.');
    lemma_split_without_sep(dec(b), '.');
    lemma_split_without_sep(dec(c), '.');
    lemma_split_without_sep(dec(d), '.');
    lemma_split_around(dec(a), dec(b), '.');
    lemma_split_around(x1, dec(c), '.');
    lemma_split_around(x2, dec(d), '.');
    let p = split(x3, '.');
    assert(p =~= seq![dec(a), dec(b), dec(c), dec(d)]);
    let p1 = p.take(1);
    let p2 = p.take(2);
    let p3 = p.take(3);
    assert(p1.drop_last() =~= Seq::<Seq<char>>::empty());
    assert(p2.drop_last() =~= p1);
    assert(p3.drop_last() =~= p2);
    assert(p.drop_last() =~= p3);
    assert(octets(Seq::<Seq<char>>::empty()) == Seq::<nat>::empty());
    assert(octets(p1) =~= seq![a]);
    assert(octets(p2) =~= seq![a, b]);
    assert(octets(p3) =~= seq![a, b, c]);
    assert(octets(p) =~= seq![a, b, c, d]);
    vstd::arithmetic::div_mod::lemma_small_mod(i as nat, 0x100000000);
}

} // verus!
