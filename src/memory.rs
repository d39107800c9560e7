//! Physical memory figures.
use vstd::prelude::*;
use crate::error::{ErrorView, InfoError, err_view};
use crate::model::Memory;
use crate::number::{NumError, num_error_reason, parse_u64, parse_u64_spec};
use crate::text::{
    chars_of, find_prefixed, first_prefixed, lemma_first_prefixed_bounds, lemma_split_nonempty,
    nth_piece, split, split_chars, trim, trim_chars, views,
};

verus! {

pub const PROC_MEMINFO: &'static str = "/proc/meminfo";

pub open spec fn memory_total_mismatch() -> Seq<char> {
    "available memory exceeds total memory"@
}

/// A snapshot from a total and an available figure; fails where more is
/// available than there is.
pub open spec fn memory_of(total: u64, available: u64) -> Result<Memory, ErrorView> {
    if available <= total {
        Ok(Memory { total, available, used: (total - available) as u64 })
    } else {
        Err(ErrorView::General(memory_total_mismatch()))
    }
}

/// Builds a snapshot from a total and an available figure.
pub fn memory_from_totals(total: u64, available: u64) -> (r: Result<Memory, InfoError>)
    ensures
        err_view(r) == memory_of(total, available),
        r matches Ok(m) ==> m.wf(),
{
    if available <= total {
        Ok(Memory { total, available, used: total - available })
    } else {
        Err(InfoError::General(String::from_str("available memory exceeds total memory")))
    }
}

/// The number on a `/proc/meminfo` line: the first word after the first `:`.
pub open spec fn meminfo_number(line: Seq<char>) -> Seq<char> {
    let field = match nth_piece(line, ':', 1) {
        Some(f) => f,
        None => Seq::<char>::empty(),
    };
    trim(split(trim(field), ' ')[0])
}

pub open spec fn missing_line(key: Seq<char>) -> ErrorView {
    ErrorView::General("Couldn't find line that starts with '"@ + key + "'"@)
}

pub open spec fn parse_failure(e: NumError) -> ErrorView {
    ErrorView::FileParseError { path: PROC_MEMINFO@, reason: num_error_reason(e) }
}

/// What `/proc/meminfo` text gives: `MemTotal` from the first line that
/// starts with it, `MemAvailable` from the first such line after that one,
/// each number taken as written (the `kB` unit is not applied).
pub open spec fn meminfo_spec(s: Seq<char>) -> Result<Memory, ErrorView> {
    let lines = split(s, '\n');
    match first_prefixed(lines, "MemTotal"@, 0) {
        None => Err(missing_line("MemTotal"@)),
        Some(i) => match parse_u64_spec(meminfo_number(lines[i])) {
            Err(e) => Err(parse_failure(e)),
            Ok(total) => match first_prefixed(lines, "MemAvailable"@, i + 1) {
                None => Err(missing_line("MemAvailable"@)),
                Some(j) => match parse_u64_spec(meminfo_number(lines[j])) {
                    Err(e) => Err(parse_failure(e)),
                    Ok(available) => memory_of(total, available),
                },
            },
        },
    }
}

fn meminfo_number_of(line: &Vec<char>) -> (r: Vec<char>)
    ensures
        r@ == meminfo_number(line@),
{
    let pieces = split_chars(line, ':');
    let field = if pieces.len() > 1 {
        assert(views(pieces@)[1] == pieces@[1]@);
        trim_chars(&pieces[1])
    } else {
        assert(trim(Seq::<char>::empty()) =~= Seq::<char>::empty());
        Vec::new()
    };
    let words = split_chars(&field, ' ');
    proof {
        lemma_split_nonempty(field@, ' ');
        assert(views(words@)[0] == words@[0]@);
    }
    trim_chars(&words[0])
}

fn missing_line_error(key: &str) -> (r: InfoError)
    ensures
        r@ == missing_line(key@),
{
    let mut m = String::from_str("Couldn't find line that starts with '");
    m.append(key);
    m.append("'");
    InfoError::General(m)
}

fn parse_error(e: NumError) -> (r: InfoError)
    ensures
        r@ == parse_failure(e),
{
    InfoError::FileParseError { path: String::from_str(PROC_MEMINFO), reason: e.reason() }
}

/// Reads memory figures from the text of `/proc/meminfo`, or fails with
/// `FileRead` where that text could not be read.
pub fn memory_info(meminfo: Option<&str>) -> (r: Result<Memory, InfoError>)
    ensures
        err_view(r) == match meminfo {
            None => Err(ErrorView::FileRead { path: PROC_MEMINFO@ }),
            Some(s) => meminfo_spec(s@),
        },
        r matches Ok(m) ==> m.wf(),
{
    let text = match meminfo {
        None => {
            return Err(InfoError::FileRead { path: String::from_str(PROC_MEMINFO) });
        },
        Some(t) => chars_of(t),
    };
    let lines = split_chars(&text, '\n');
    let ghost ls = views(lines@);
    let total_key = chars_of("MemTotal");
    let i = match find_prefixed(&lines, &total_key, 0) {
        None => {
            return Err(missing_line_error("MemTotal"));
        },
        Some(i) => i,
    };
    proof {
        lemma_first_prefixed_bounds(ls, total_key@, 0);
        assert(ls[i as int] == lines@[i as int]@);
    }
    let total = match parse_u64(&meminfo_number_of(&lines[i])) {
        Err(e) => {
            return Err(parse_error(e));
        },
        Ok(v) => v,
    };
    let available_key = chars_of("MemAvailable");
    let j = match find_prefixed(&lines, &available_key, i + 1) {
        None => {
            return Err(missing_line_error("MemAvailable"));
        },
        Some(j) => j,
    };
    proof {
        lemma_first_prefixed_bounds(ls, available_key@, i + 1);
        assert(ls[j as int] == lines@[j as int]@);
    }
    let available = match parse_u64(&meminfo_number_of(&lines[j])) {
        Err(e) => {
            return Err(parse_error(e));
        },
        Ok(v) => v,
    };
    memory_from_totals(total, available)
}

} // verus!
