//! Placing the banner and the report side by side.
use vstd::prelude::*;
use crate::text::{chars_of, lemma_split_nonempty, split, split_chars, string_of, views};

verus! {

/// `l` without one trailing carriage return.
pub open spec fn strip_cr(l: Seq<char>) -> Seq<char> {
    if l.len() > 0 && l.last() == '\r' {
        l.drop_last()
    } else {
        l
    }
}

/// The lines of `s` in the way `str::lines` gives them: split at `\n`, no
/// empty last line after a final `\n`, and no trailing `\r` on any line.
pub open spec fn text_lines(s: Seq<char>) -> Seq<Seq<char>> {
    let p = split(s, '\n');
    let q = if p.last().len() == 0 {
        p.drop_last()
    } else {
        p
    };
    q.map_values(|l: Seq<char>| strip_cr(l))
}

/// The length of the longest line, zero where there is none.
pub open spec fn longest(ls: Seq<Seq<char>>) -> nat
    decreases ls.len(),
{
    if ls.len() == 0 {
        0
    } else {
        let m = longest(ls.drop_last());
        if ls.last().len() > m {
            ls.last().len()
        } else {
            m
        }
    }
}

/// The length of the shortest line, `usize::MAX` where there is none.
pub open spec fn shortest(ls: Seq<Seq<char>>) -> nat
    decreases ls.len(),
{
    if ls.len() == 0 {
        usize::MAX as nat
    } else {
        let m = shortest(ls.drop_last());
        if ls.last().len() < m {
            ls.last().len()
        } else {
            m
        }
    }
}

proof fn lemma_longest_bound(ls: Seq<Seq<char>>, b: nat)
    requires
        forall|i: int| 0 <= i < ls.len() ==> #[trigger] ls[i].len() <= b,
    ensures
        longest(ls) <= b,
    decreases ls.len(),
{
    if ls.len() > 0 {
        assert forall|i: int| 0 <= i < ls.drop_last().len() implies #[trigger] ls.drop_last()[i].len()
            <= b by {
            assert(ls.drop_last()[i] == ls[i]);
        }
        lemma_longest_bound(ls.drop_last(), b);
    }
}

/// The shortest and the longest line length of `s`, in characters.
pub fn min_max_line_len(s: &str) -> (r: (usize, usize))
    ensures
        r.0 == shortest(text_lines(s@)),
        r.1 == longest(text_lines(s@)),
{
    let text = chars_of(s);
    let pieces = split_chars(&text, '\n');
    let ghost ps = views(pieces@);
    proof {
        lemma_split_nonempty(text@, '\n');
    }
    let last = pieces.len() - 1;
    assert(ps[last as int] == pieces@[last as int]@);
    let count: usize = if pieces[last].len() == 0 {
        last
    } else {
        pieces.len()
    };
    let ghost q = if ps.last().len() == 0 {
        ps.drop_last()
    } else {
        ps
    };
    let ghost ls = q.map_values(|l: Seq<char>| strip_cr(l));
    assert(ls == text_lines(s@));
    let mut min_len: usize = usize::MAX;
    let mut max_len: usize = 0;
    let mut i: usize = 0;
    while i < count
        invariant
            i <= count <= pieces.len(),
            count == q.len(),
            ps == views(pieces@),
            forall|k: int| 0 <= k < q.len() ==> #[trigger] q[k] == ps[k],
            ls == q.map_values(|l: Seq<char>| strip_cr(l)),
            min_len == shortest(ls.take(i as int)),
            max_len == longest(ls.take(i as int)),
        decreases count - i,
    {
        assert(ps[i as int] == pieces@[i as int]@);
        let line = &pieces[i];
        let len: usize = if line.len() > 0 && line[line.len() - 1] == '\r' {
            line.len() - 1
        } else {
            line.len()
        };
        assert(ls[i as int] == strip_cr(q[i as int]));
        assert(len == ls[i as int].len());
        assert(ls.take(i + 1).drop_last() =~= ls.take(i as int));
        if len > max_len {
            max_len = len;
        }
        if len < min_len {
            min_len = len;
        }
        i += 1;
    }
    assert(ls.take(count as int) =~= ls);
    (min_len, max_len)
}

/// The `i`-th `\n`-separated piece of `s`, or nothing past the last one.
pub open spec fn piece_or_empty(s: Seq<char>, i: int) -> Seq<char> {
    if 0 <= i < split(s, '\n').len() {
        split(s, '\n')[i]
    } else {
        Seq::<char>::empty()
    }
}

/// `n` spaces.
pub open spec fn spaces(n: nat) -> Seq<char> {
    Seq::new(n, |k: int| ' ')
}

/// Row `i` of the combined text: the banner line padded to two columns past
/// the widest banner line, then the report line and a line break.
pub open spec fn row(first: Seq<char>, second: Seq<char>, width: nat, i: int) -> Seq<char> {
    let a = piece_or_empty(first, i);
    let pad = if a.len() <= width + 2 {
        (width + 2 - a.len()) as nat
    } else {
        0
    };
    a + spaces(pad) + piece_or_empty(second, i) + seq!['\n']
}

/// The first `n` rows.
pub open spec fn rows(first: Seq<char>, second: Seq<char>, width: nat, n: nat) -> Seq<char>
    decreases n,
{
    if n == 0 {
        Seq::<char>::empty()
    } else {
        rows(first, second, width, (n - 1) as nat) + row(first, second, width, n - 1)
    }
}

fn append_chars(out: &mut Vec<char>, v: &Vec<char>)
    ensures
        final(out)@ == old(out)@ + v@,
{
    let ghost start = out@;
    let mut i: usize = 0;
    while i < v.len()
        invariant
            i <= v.len(),
            out@ == start + v@.take(i as int),
        decreases v.len() - i,
    {
        out.push(v[i]);
        i += 1;
        assert(out@ =~= start + v@.take(i as int));
    }
    assert(v@.take(v.len() as int) =~= v@);
}

/// Sets `first` (the banner) to the left of `second` (the report), line by
/// line, with as many rows as the longer of the two has pieces.
pub fn with_both(first: &str, second: &str) -> (r: String)
    ensures
        r@ == rows(
            first@,
            second@,
            longest(text_lines(first@)),
            if split(first@, '\n').len() >= split(second@, '\n').len() {
                split(first@, '\n').len()
            } else {
                split(second@, '\n').len()
            },
        ),
{
    let (_, max_len) = min_max_line_len(first);
    let a = split_chars(&chars_of(first), '\n');
    let b = split_chars(&chars_of(second), '\n');
    let n: usize = if a.len() >= b.len() {
        a.len()
    } else {
        b.len()
    };
    let ghost width = longest(text_lines(first@));
    let mut out: Vec<char> = Vec::new();
    let mut i: usize = 0;
    while i < n
        invariant
            i <= n,
            n == if a.len() >= b.len() { a.len() } else { b.len() },
            views(a@) == split(first@, '\n'),
            views(b@) == split(second@, '\n'),
            max_len == width,
            out@ == rows(first@, second@, width, i as nat),
        decreases n - i,
    {
        let empty: Vec<char> = Vec::new();
        let fir: &Vec<char> = if i < a.len() {
            assert(views(a@)[i as int] == a@[i as int]@);
            &a[i]
        } else {
            &empty
        };
        let sec: &Vec<char> = if i < b.len() {
            assert(views(b@)[i as int] == b@[i as int]@);
            &b[i]
        } else {
            &empty
        };
        let ghost before = out@;
        append_chars(&mut out, fir);
        let room: u128 = max_len as u128 + 2;
        let pad: u128 = if (fir.len() as u128) <= room {
            room - fir.len() as u128
        } else {
            0
        };
        let ghost mid = out@;
        let mut k: u128 = 0;
        while k < pad
            invariant
                k <= pad,
                out@ == mid + spaces(k as nat),
            decreases pad - k,
        {
            out.push(' ');
            k += 1;
            assert(out@ =~= mid + spaces(k as nat));
        }
        append_chars(&mut out, sec);
        out.push('\n');
        assert(out@ =~= before + row(first@, second@, width, i as int));
        i += 1;
    }
    string_of(&out)
}

} // verus!
