//! Character-level views of text and the few operations on them that the
//! source readers need: splitting, trimming, prefixes and line search.
use vstd::prelude::*;

verus! {

/// The views of a sequence of character vectors.
pub open spec fn views(v: Seq<Vec<char>>) -> Seq<Seq<char>> {
    v.map_values(|x: Vec<char>| x@)
}

/// The pieces of `s` between occurrences of `sep`, in the way `str::split`
/// yields them: `n` separators give `n + 1` pieces, some possibly empty.
pub open spec fn split(s: Seq<char>, sep: char) -> Seq<Seq<char>>
    decreases s.len(),
{
    if s.len() == 0 {
        seq![Seq::<char>::empty()]
    } else {
        let rest = split(s.drop_last(), sep);
        if s.last() == sep {
            rest.push(Seq::<char>::empty())
        } else {
            rest.update(rest.len() - 1, rest.last().push(s.last()))
        }
    }
}

/// The `n`-th piece of `s` split at `sep`, when there is one.
pub open spec fn nth_piece(s: Seq<char>, sep: char, n: int) -> Option<Seq<char>> {
    if 0 <= n < split(s, sep).len() {
        Some(split(s, sep)[n])
    } else {
        None
    }
}

/// Unicode `White_Space`, the set that `char::is_whitespace` tests.
pub open spec fn is_ws(c: char) -> bool {
    let u = c as u32;
    (0x09 <= u <= 0x0D) || u == 0x20 || u == 0x85 || u == 0xA0 || u == 0x1680 || (0x2000 <= u
        <= 0x200A) || u == 0x2028 || u == 0x2029 || u == 0x202F || u == 0x205F || u == 0x3000
}

pub open spec fn trim_start(s: Seq<char>) -> Seq<char>
    decreases s.len(),
{
    if s.len() > 0 && is_ws(s[0]) {
        trim_start(s.drop_first())
    } else {
        s
    }
}

pub open spec fn trim_end(s: Seq<char>) -> Seq<char>
    decreases s.len(),
{
    if s.len() > 0 && is_ws(s.last()) {
        trim_end(s.drop_last())
    } else {
        s
    }
}

/// `s` without leading and trailing white space.
pub open spec fn trim(s: Seq<char>) -> Seq<char> {
    trim_end(trim_start(s))
}

pub open spec fn starts_with(s: Seq<char>, p: Seq<char>) -> bool {
    p.len() <= s.len() && s.take(p.len() as int) == p
}

/// The index of the first line at or after `from` that starts with `p`.
pub open spec fn first_prefixed(lines: Seq<Seq<char>>, p: Seq<char>, from: int) -> Option<int>
    decreases lines.len() - from,
{
    if from < 0 || from >= lines.len() {
        None
    } else if starts_with(lines[from], p) {
        Some(from)
    } else {
        first_prefixed(lines, p, from + 1)
    }
}

/// The view of an optional text.
pub open spec fn opt_view(o: Option<&str>) -> Option<Seq<char>> {
    match o {
        Some(s) => Some(s@),
        None => None,
    }
}

pub open spec fn as_int(o: Option<usize>) -> Option<int> {
    match o {
        Some(i) => Some(i as int),
        None => None,
    }
}

pub proof fn lemma_split_nonempty(s: Seq<char>, sep: char)
    ensures
        split(s, sep).len() >= 1,
    decreases s.len(),
{
    if s.len() > 0 {
        lemma_split_nonempty(s.drop_last(), sep);
    }
}

pub proof fn lemma_first_prefixed_bounds(lines: Seq<Seq<char>>, p: Seq<char>, from: int)
    ensures
        first_prefixed(lines, p, from) matches Some(i) ==> from <= i < lines.len()
            && starts_with(lines[i], p),
    decreases lines.len() - from,
{
    if 0 <= from < lines.len() && !starts_with(lines[from], p) {
        lemma_first_prefixed_bounds(lines, p, from + 1);
    }
}

pub fn is_whitespace(c: char) -> (r: bool)
    ensures
        r == is_ws(c),
{
    let u = c as u32;
    (0x09 <= u && u <= 0x0D) || u == 0x20 || u == 0x85 || u == 0xA0 || u == 0x1680 || (0x2000
        <= u && u <= 0x200A) || u == 0x2028 || u == 0x2029 || u == 0x202F || u == 0x205F || u
        == 0x3000
}

pub fn chars_of(s: &str) -> (r: Vec<char>)
    ensures
        r@ == s@,
{
    let mut r: Vec<char> = Vec::new();
    for c in it: s.chars()
        invariant
            r@ == it.seq().take(it.index() as int),
    {
        r.push(c);
    }
    assert(r@ =~= s@);
    r
}

/// Relies on `String`'s `FromIterator<char>`: the string holds the characters in order.
#[verifier::external_body]
pub(crate) fn string_of(v: &Vec<char>) -> (r: String)
    ensures
        r@ == v@,
{
    v.iter().collect()
}

pub fn slice_chars(s: &Vec<char>, from: usize, to: usize) -> (r: Vec<char>)
    requires
        from <= to <= s.len(),
    ensures
        r@ == s@.subrange(from as int, to as int),
{
    let mut r: Vec<char> = Vec::new();
    let mut i: usize = from;
    while i < to
        invariant
            from <= i <= to <= s.len(),
            r@ == s@.subrange(from as int, i as int),
        decreases to - i,
    {
        r.push(s[i]);
        i += 1;
        assert(r@ =~= s@.subrange(from as int, i as int));
    }
    r
}

pub fn copy_chars(v: &Vec<char>) -> (r: Vec<char>)
    ensures
        r@ == v@,
{
    let r = slice_chars(v, 0, v.len());
    assert(r@ =~= v@);
    r
}

pub fn concat_chars(a: &Vec<char>, b: &Vec<char>) -> (r: Vec<char>)
    ensures
        r@ == a@ + b@,
{
    let mut r = copy_chars(a);
    let mut i: usize = 0;
    while i < b.len()
        invariant
            i <= b.len(),
            r@ == a@ + b@.take(i as int),
        decreases b.len() - i,
    {
        r.push(b[i]);
        i += 1;
        assert(r@ =~= a@ + b@.take(i as int));
    }
    assert(b@.take(b.len() as int) =~= b@);
    r
}

pub fn split_chars(s: &Vec<char>, sep: char) -> (r: Vec<Vec<char>>)
    ensures
        views(r@) == split(s@, sep),
{
    let mut pieces: Vec<Vec<char>> = Vec::new();
    let mut cur: Vec<char> = Vec::new();
    let mut i: usize = 0;
    assert(views(pieces@).push(cur@) =~= split(s@.take(0), sep));
    while i < s.len()
        invariant
            i <= s.len(),
            views(pieces@).push(cur@) == split(s@.take(i as int), sep),
        decreases s.len() - i,
    {
        let c = s[i];
        let ghost before = split(s@.take(i as int), sep);
        proof {
            assert(s@.take(i + 1).drop_last() =~= s@.take(i as int));
            lemma_split_nonempty(s@.take(i as int), sep);
        }
        if c == sep {
            pieces.push(cur);
            cur = Vec::new();
            assert(views(pieces@).push(cur@) =~= before.push(Seq::<char>::empty()));
        } else {
            cur.push(c);
            assert(views(pieces@).push(cur@) =~= before.update(
                before.len() - 1,
                before.last().push(c),
            ));
        }
        i += 1;
    }
    pieces.push(cur);
    assert(s@.take(s.len() as int) =~= s@);
    assert(views(pieces@) =~= split(s@, sep));
    pieces
}

pub fn trim_chars(s: &Vec<char>) -> (r: Vec<char>)
    ensures
        r@ == trim(s@),
{
    let mut i: usize = 0;
    assert(s@.subrange(0, s.len() as int) =~= s@);
    while i < s.len() && is_whitespace(s[i])
        invariant
            i <= s.len(),
            trim_start(s@) == trim_start(s@.subrange(i as int, s.len() as int)),
        decreases s.len() - i,
    {
        assert(s@.subrange(i as int, s.len() as int).drop_first() =~= s@.subrange(
            i + 1,
            s.len() as int,
        ));
        i += 1;
    }
    let mut j: usize = s.len();
    while j > i && is_whitespace(s[j - 1])
        invariant
            i <= j <= s.len(),
            trim(s@) == trim_end(s@.subrange(i as int, j as int)),
        decreases j,
    {
        assert(s@.subrange(i as int, j as int).drop_last() =~= s@.subrange(i as int, j - 1));
        j -= 1;
    }
    slice_chars(s, i, j)
}

pub fn has_prefix(s: &Vec<char>, p: &Vec<char>) -> (r: bool)
    ensures
        r == starts_with(s@, p@),
{
    if p.len() > s.len() {
        return false;
    }
    let mut i: usize = 0;
    while i < p.len()
        invariant
            i <= p.len() <= s.len(),
            forall|k: int| 0 <= k < i ==> s@[k] == p@[k],
        decreases p.len() - i,
    {
        if s[i] != p[i] {
            assert(s@.take(p.len() as int)[i as int] != p@[i as int]);
            return false;
        }
        i += 1;
    }
    assert(s@.take(p.len() as int) =~= p@);
    true
}

pub fn find_prefixed(lines: &Vec<Vec<char>>, p: &Vec<char>, from: usize) -> (r: Option<usize>)
    ensures
        as_int(r) == first_prefixed(views(lines@), p@, from as int),
{
    let mut i: usize = from;
    while i < lines.len()
        invariant
            from <= i,
            first_prefixed(views(lines@), p@, from as int) == first_prefixed(
                views(lines@),
                p@,
                i as int,
            ),
        decreases lines.len() - i,
    {
        if has_prefix(&lines[i], p) {
            return Some(i);
        }
        i += 1;
    }
    None
}

/// The lines among `lines` that start with `p`, in order.
pub open spec fn prefixed_lines(lines: Seq<Seq<char>>, p: Seq<char>) -> Seq<Seq<char>>
    decreases lines.len(),
{
    if lines.len() == 0 {
        Seq::<Seq<char>>::empty()
    } else {
        let rest = prefixed_lines(lines.drop_last(), p);
        if starts_with(lines.last(), p) {
            rest.push(lines.last())
        } else {
            rest
        }
    }
}

pub proof fn lemma_prefixed_lines_len(lines: Seq<Seq<char>>, p: Seq<char>)
    ensures
        prefixed_lines(lines, p).len() <= lines.len(),
    decreases lines.len(),
{
    if lines.len() > 0 {
        lemma_prefixed_lines_len(lines.drop_last(), p);
    }
}

/// Pushing an element onto a sequence inserts it into the sequence's set.
pub proof fn lemma_push_to_set<A>(s: Seq<A>, x: A)
    ensures
        s.push(x).to_set() == s.to_set().insert(x),
{
    assert forall|y: A| #[trigger] s.push(x).contains(y) implies s.to_set().insert(x).contains(y) by {
        let k = choose|k: int| 0 <= k < s.push(x).len() && s.push(x)[k] == y;
        if k < s.len() {
            assert(s[k] == y);
        }
    }
    assert forall|y: A| #[trigger] s.to_set().insert(x).contains(y) implies s.push(x).contains(y) by {
        if y == x {
            assert(s.push(x)[s.len() as int] == x);
        } else {
            let k = choose|k: int| 0 <= k < s.len() && s[k] == y;
            assert(s.push(x)[k] == y);
        }
    }
    assert(s.push(x).to_set() =~= s.to_set().insert(x));
}

pub fn chars_equal(a: &Vec<char>, b: &Vec<char>) -> (r: bool)
    ensures
        r == (a@ == b@),
{
    if a.len() != b.len() {
        return false;
    }
    let mut i: usize = 0;
    while i < a.len()
        invariant
            i <= a.len() == b.len(),
            forall|k: int| 0 <= k < i ==> a@[k] == b@[k],
        decreases a.len() - i,
    {
        if a[i] != b[i] {
            return false;
        }
        i += 1;
    }
    assert(a@ =~= b@);
    true
}

pub fn contains_chars(v: &Vec<Vec<char>>, x: &Vec<char>) -> (r: bool)
    ensures
        r == views(v@).contains(x@),
{
    let mut i: usize = 0;
    while i < v.len()
        invariant
            i <= v.len(),
            forall|k: int| 0 <= k < i ==> views(v@)[k] != x@,
        decreases v.len() - i,
    {
        if chars_equal(&v[i], x) {
            assert(views(v@)[i as int] == x@);
            return true;
        }
        i += 1;
    }
    false
}

/// The index where white space that starts at `from` ends.
pub fn skip_ws(s: &Vec<char>, from: usize) -> (r: usize)
    requires
        from <= s.len(),
    ensures
        from <= r <= s.len(),
        trim_start(s@.skip(from as int)) == s@.skip(r as int),
{
    let mut i: usize = from;
    while i < s.len() && is_whitespace(s[i])
        invariant
            from <= i <= s.len(),
            trim_start(s@.skip(from as int)) == trim_start(s@.skip(i as int)),
        decreases s.len() - i,
    {
        assert(s@.skip(i as int).drop_first() =~= s@.skip(i + 1));
        i += 1;
    }
    i
}

/// `s` without any occurrence of `c`.
pub open spec fn remove_char(s: Seq<char>, c: char) -> Seq<char>
    decreases s.len(),
{
    if s.len() == 0 {
        s
    } else if s.last() == c {
        remove_char(s.drop_last(), c)
    } else {
        remove_char(s.drop_last(), c).push(s.last())
    }
}

/// Whether `p` occurs in `s` at `i`.
pub open spec fn occurs_at(s: Seq<char>, p: Seq<char>, i: int) -> bool {
    0 <= i && i + p.len() <= s.len() && s.subrange(i, i + p.len()) == p
}

/// Whether `p` occurs anywhere in `s`.
pub open spec fn contains_text(s: Seq<char>, p: Seq<char>) -> bool {
    exists|i: int| occurs_at(s, p, i)
}

/// The index of the first line at or after `from` in which `p` occurs.
pub open spec fn first_containing(lines: Seq<Seq<char>>, p: Seq<char>, from: int) -> Option<int>
    decreases lines.len() - from,
{
    if from < 0 || from >= lines.len() {
        None
    } else if contains_text(lines[from], p) {
        Some(from)
    } else {
        first_containing(lines, p, from + 1)
    }
}

pub proof fn lemma_first_containing_bounds(lines: Seq<Seq<char>>, p: Seq<char>, from: int)
    ensures
        first_containing(lines, p, from) matches Some(i) ==> from <= i < lines.len()
            && contains_text(lines[i], p),
    decreases lines.len() - from,
{
    if 0 <= from < lines.len() && !contains_text(lines[from], p) {
        lemma_first_containing_bounds(lines, p, from + 1);
    }
}

pub fn without_char(s: &Vec<char>, c: char) -> (r: Vec<char>)
    ensures
        r@ == remove_char(s@, c),
{
    let mut r: Vec<char> = Vec::new();
    let mut i: usize = 0;
    while i < s.len()
        invariant
            i <= s.len(),
            r@ == remove_char(s@.take(i as int), c),
        decreases s.len() - i,
    {
        assert(s@.take(i + 1).drop_last() =~= s@.take(i as int));
        if s[i] != c {
            r.push(s[i]);
        }
        i += 1;
    }
    assert(s@.take(s.len() as int) =~= s@);
    r
}

fn occurs_at_exec(s: &Vec<char>, p: &Vec<char>, i: usize) -> (r: bool)
    ensures
        r == occurs_at(s@, p@, i as int),
{
    if i > s.len() || p.len() > s.len() - i {
        return false;
    }
    let mut k: usize = 0;
    while k < p.len()
        invariant
            k <= p.len(),
            i + p.len() <= s.len(),
            forall|j: int| 0 <= j < k ==> s@[i + j] == p@[j],
        decreases p.len() - k,
    {
        if s[i + k] != p[k] {
            assert(s@.subrange(i as int, i + p.len())[k as int] != p@[k as int]);
            return false;
        }
        k += 1;
    }
    assert(s@.subrange(i as int, i + p.len()) =~= p@);
    true
}

pub fn has_text(s: &Vec<char>, p: &Vec<char>) -> (r: bool)
    ensures
        r == contains_text(s@, p@),
{
    let mut i: usize = 0;
    loop
        invariant
            i <= s.len(),
            forall|j: int| 0 <= j < i ==> !occurs_at(s@, p@, j),
        decreases s.len() - i,
    {
        if occurs_at_exec(s, p, i) {
            return true;
        }
        if i == s.len() {
            assert forall|j: int| !occurs_at(s@, p@, j) by {
                if occurs_at(s@, p@, j) {
                    assert(j <= i);
                }
            }
            return false;
        }
        i += 1;
    }
}

pub fn find_containing(lines: &Vec<Vec<char>>, p: &Vec<char>) -> (r: Option<usize>)
    ensures
        as_int(r) == first_containing(views(lines@), p@, 0),
{
    let mut i: usize = 0;
    while i < lines.len()
        invariant
            first_containing(views(lines@), p@, 0) == first_containing(views(lines@), p@, i as int),
        decreases lines.len() - i,
    {
        assert(views(lines@)[i as int] == lines@[i as int]@);
        if has_text(&lines[i], p) {
            return Some(i);
        }
        i += 1;
    }
    None
}

} // verus!
