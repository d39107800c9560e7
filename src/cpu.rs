//! Processor facts from the text of `/proc/cpuinfo` and `/proc/uptime`.
use vstd::prelude::*;
use crate::error::{ErrorView, InfoError, err_view, text_view};
use crate::model::Cpu;
use crate::seconds::{seconds_millis, seconds_to_millis};
use crate::number::{is_decimal, milli_value_sat, parse_millis};
use crate::text::{
    chars_of, contains_chars, copy_chars, find_prefixed, first_prefixed, has_prefix,
    lemma_first_prefixed_bounds, lemma_prefixed_lines_len, lemma_push_to_set, lemma_split_nonempty, nth_piece,
    prefixed_lines, skip_ws, slice_chars, split, split_chars, starts_with, string_of, trim,
    trim_chars, trim_start, views,
};

verus! {

pub const PROC_CPUINFO: &'static str = "/proc/cpuinfo";

pub const PROC_UPTIME: &'static str = "/proc/uptime";

/// The model name: the text after the first `:` of the first line that
/// starts with `model name`, trimmed.
pub open spec fn cpu_name_spec(s: Seq<char>) -> Result<Seq<char>, ErrorView> {
    let lines = split(s, '\n');
    match first_prefixed(lines, "model name"@, 0) {
        None => Err(ErrorView::General("Couldn't find line that starts with 'model name'"@)),
        Some(i) => match nth_piece(lines[i], ':', 1) {
            None => Err(ErrorView::General("Invalid model name format"@)),
            Some(f) => Ok(trim(f)),
        },
    }
}

/// The number of distinct `core id` lines.
pub open spec fn core_count(s: Seq<char>) -> nat {
    prefixed_lines(split(s, '\n'), "core id"@).to_set().len()
}

/// The number of `processor` lines.
pub open spec fn thread_count(s: Seq<char>) -> nat {
    prefixed_lines(split(s, '\n'), "processor"@).len()
}

/// On a line of the form `cpu MHz <ws> : <ws> <number>`, the part after the
/// white space that follows the colon.
pub open spec fn mhz_field(l: Seq<char>) -> Option<Seq<char>> {
    let a = trim_start(l.skip(7));
    if starts_with(l, "cpu MHz"@) && a.len() > 0 && a[0] == ':' {
        Some(trim_start(a.skip(1)))
    } else {
        None
    }
}

/// A clock line: `cpu MHz`, optional white space, `:`, optional white
/// space, and a decimal number (`ddd` or `ddd.ddd`) that ends the line.
pub open spec fn is_mhz_line(l: Seq<char>) -> bool {
    mhz_field(l) matches Some(f) && is_decimal(f)
}

/// The index of the first clock line at or after `from`.
pub open spec fn first_mhz_line(lines: Seq<Seq<char>>, from: int) -> Option<int>
    decreases lines.len() - from,
{
    if from < 0 || from >= lines.len() {
        None
    } else if is_mhz_line(lines[from]) {
        Some(from)
    } else {
        first_mhz_line(lines, from + 1)
    }
}

/// The clock rate in kilohertz, from the first clock line.
pub open spec fn cpu_clock_spec(s: Seq<char>) -> Result<u64, ErrorView> {
    let lines = split(s, '\n');
    match first_mhz_line(lines, 0) {
        None => Err(ErrorView::General("Couldn't find CPU clock speed in CPU info"@)),
        Some(i) => Ok(milli_value_sat(mhz_field(lines[i])->Some_0)),
    }
}

/// The uptime in milliseconds: the first space-separated word read as a
/// number of seconds the way `f64::from_str` reads it, times a thousand and
/// truncated (see `seconds_millis`); zero where that word is no number.
pub open spec fn cpu_uptime_spec(s: Seq<char>) -> u64 {
    seconds_millis(split(s, ' ')[0])
}

/// The model name of the processor.
pub fn cpu_name(cpu_info: &str) -> (r: Result<String, InfoError>)
    ensures
        text_view(r) == cpu_name_spec(cpu_info@),
{
    let text = chars_of(cpu_info);
    let lines = split_chars(&text, '\n');
    let key = chars_of("model name");
    let i = match find_prefixed(&lines, &key, 0) {
        None => {
            return Err(
                InfoError::General(
                    String::from_str("Couldn't find line that starts with 'model name'"),
                ),
            );
        },
        Some(i) => i,
    };
    proof {
        lemma_first_prefixed_bounds(views(lines@), key@, 0);
        assert(views(lines@)[i as int] == lines@[i as int]@);
    }
    let pieces = split_chars(&lines[i], ':');
    if pieces.len() < 2 {
        return Err(InfoError::General(String::from_str("Invalid model name format")));
    }
    assert(views(pieces@)[1] == pieces@[1]@);
    Ok(string_of(&trim_chars(&pieces[1])))
}

/// The core and thread counts `(cores, threads)`: distinct `core id` lines
/// and `processor` lines.
pub fn cpu_count(cpu_info: &str) -> (r: (usize, usize))
    ensures
        r.0 == core_count(cpu_info@),
        r.1 == thread_count(cpu_info@),
{
    let text = chars_of(cpu_info);
    let lines = split_chars(&text, '\n');
    let ghost ls = views(lines@);
    let core_key = chars_of("core id");
    let thread_key = chars_of("processor");
    let mut seen: Vec<Vec<char>> = Vec::new();
    let mut threads: usize = 0;
    let mut i: usize = 0;
    assert(ls.take(0) =~= Seq::<Seq<char>>::empty());
    while i < lines.len()
        invariant
            i <= lines.len(),
            ls == views(lines@),
            threads == prefixed_lines(ls.take(i as int), thread_key@).len(),
            views(seen@).no_duplicates(),
            views(seen@).to_set() == prefixed_lines(ls.take(i as int), core_key@).to_set(),
        decreases lines.len() - i,
    {
        let ghost before = ls.take(i as int);
        let ghost l = ls[i as int];
        assert(ls.take(i + 1).drop_last() =~= before);
        assert(ls.take(i + 1).last() == l);
        assert(lines@[i as int]@ == l);
        proof {
            lemma_prefixed_lines_len(before, thread_key@);
        }
        if has_prefix(&lines[i], &thread_key) {
            threads += 1;
        }
        if has_prefix(&lines[i], &core_key) {
            let ghost old_seen = views(seen@);
            if !contains_chars(&seen, &lines[i]) {
                let line = copy_chars(&lines[i]);
                seen.push(line);
                assert(views(seen@) =~= old_seen.push(l));
                proof {
                    lemma_push_to_set(old_seen, l);
                }
            }
            let ghost p = prefixed_lines(before, core_key@);
            assert(prefixed_lines(ls.take(i + 1), core_key@) == p.push(l));
            proof {
                lemma_push_to_set(p, l);
            }
        }
        i += 1;
    }
    assert(ls.take(lines.len() as int) =~= ls);
    proof {
        views(seen@).unique_seq_to_set();
    }
    (seen.len(), threads)
}

fn mhz_field_of(l: &Vec<char>) -> (r: Option<Vec<char>>)
    ensures
        match r {
            Some(f) => mhz_field(l@) == Some(f@),
            None => mhz_field(l@) is None,
        },
{
    let key = chars_of("cpu MHz");
    if !has_prefix(l, &key) {
        return None;
    }
    proof {
        reveal_strlit("cpu MHz");
    }
    let a = skip_ws(l, 7);
    if a >= l.len() || l[a] != ':' {
        return None;
    }
    let b = skip_ws(l, a + 1);
    assert(l@.skip(a as int).skip(1) =~= l@.skip(a + 1));
    assert(l@.skip(a as int)[0] == l@[a as int]);
    let f = slice_chars(l, b, l.len());
    assert(f@ =~= l@.skip(b as int));
    Some(f)
}

/// The clock rate in kilohertz, from the first line of the form
/// `cpu MHz : <number>`.
pub fn cpu_clock(cpu_info: &str) -> (r: Result<u64, InfoError>)
    ensures
        err_view(r) == cpu_clock_spec(cpu_info@),
{
    let text = chars_of(cpu_info);
    let lines = split_chars(&text, '\n');
    let ghost ls = views(lines@);
    let mut i: usize = 0;
    while i < lines.len()
        invariant
            ls == views(lines@),
            ls == split(cpu_info@, '\n'),
            first_mhz_line(ls, 0) == first_mhz_line(ls, i as int),
        decreases lines.len() - i,
    {
        assert(ls[i as int] == lines@[i as int]@);
        if let Some(f) = mhz_field_of(&lines[i]) {
            if let Some(k) = parse_millis(&f) {
                return Ok(k);
            }
        }
        i += 1;
    }
    Err(InfoError::General(String::from_str("Couldn't find CPU clock speed in CPU info")))
}

/// The uptime in milliseconds, from the text of `/proc/uptime`.
pub fn cpu_uptime(uptime: &str) -> (r: u64)
    ensures
        r == cpu_uptime_spec(uptime@),
{
    let text = chars_of(uptime);
    let words = split_chars(&text, ' ');
    proof {
        lemma_split_nonempty(text@, ' ');
        assert(views(words@)[0] == words@[0]@);
    }
    seconds_to_millis(&words[0])
}

/// What the two texts give, where both could be read.
pub open spec fn cpu_of(cpu_info: Seq<char>, uptime: Seq<char>, r: Result<Cpu, InfoError>) -> bool {
    match cpu_name_spec(cpu_info) {
        Err(e) => err_view(r) == Err::<Cpu, ErrorView>(e),
        Ok(name) => match cpu_clock_spec(cpu_info) {
            Err(e) => err_view(r) == Err::<Cpu, ErrorView>(e),
            Ok(khz) => r matches Ok(c) && c.name@ == name && c.cores == core_count(cpu_info)
                && c.threads == thread_count(cpu_info) && c.clock_rate_khz == khz && c.uptime
                == cpu_uptime_spec(uptime) as u128,
        },
    }
}

/// Reads the processor facts from the texts of `/proc/cpuinfo` and
/// `/proc/uptime`; `None` stands for a text that could not be read, and
/// gives `FileRead` naming that file.
pub fn cpu_info(cpuinfo_text: Option<&str>, uptime_text: Option<&str>) -> (r: Result<Cpu, InfoError>)
    ensures
        cpuinfo_text is None ==> err_view(r) == Err::<Cpu, ErrorView>(
            ErrorView::FileRead { path: PROC_CPUINFO@ },
        ),
        cpuinfo_text is Some && uptime_text is None ==> err_view(r) == Err::<Cpu, ErrorView>(
            ErrorView::FileRead { path: PROC_UPTIME@ },
        ),
        cpuinfo_text is Some && uptime_text is Some ==> cpu_of(
            cpuinfo_text->Some_0@,
            uptime_text->Some_0@,
            r,
        ),
{
    let c = match cpuinfo_text {
        None => {
            return Err(InfoError::FileRead { path: String::from_str(PROC_CPUINFO) });
        },
        Some(c) => c,
    };
    let u = match uptime_text {
        None => {
            return Err(InfoError::FileRead { path: String::from_str(PROC_UPTIME) });
        },
        Some(u) => u,
    };
    let name = cpu_name(c)?;
    let (cores, threads) = cpu_count(c);
    let clock_rate_khz = cpu_clock(c)?;
    let uptime = cpu_uptime(u) as u128;
    Ok(Cpu { name, uptime, cores, threads, clock_rate_khz })
}

/// There are no more distinct `core id` lines than `core id` lines; so
/// where each processor entry holds at most one `core id` line, the thread
/// count is at least the core count.
pub proof fn lemma_threads_cover_cores(cpu_info: Seq<char>)
    requires
        prefixed_lines(split(cpu_info, '\n'), "core id"@).len() <= thread_count(cpu_info),
    ensures
        core_count(cpu_info) <= thread_count(cpu_info),
{
    prefixed_lines(split(cpu_info, '\n'), "core id"@).lemma_cardinality_of_set();
}

} // verus!
