//! Decisions of the macOS backend, over the plain values that the kernel
//! parameter queries, the statistics call and the license file hand back.
use vstd::prelude::*;
use crate::error::{ErrorView, InfoError};
use crate::gate::Gate;
use crate::memory::{memory_from_totals, memory_of, memory_total_mismatch};
use crate::model::{BaseBoard, Memory, OsArt};
use crate::text::{
    chars_of, find_containing, first_containing, lemma_first_containing_bounds,
    lemma_split_nonempty, remove_char, copy_chars, split, split_chars, string_of, trim,
    trim_chars, views, without_char,
};

verus! {

pub const OS_DISPLAY_NAME_FILE: &'static str =
    "/System/Library/CoreServices/Setup Assistant.app/Contents/Resources/en.lproj/OSXSoftwareLicense.rtf";


/// Setup: nothing needs checking, so it always succeeds.
pub fn init(gate: &mut Gate) -> (r: Result<(), InfoError>)
    ensures
        r is Ok,
        final(gate).initialized,
{
    gate.initialized = true;
    Ok(())
}

/// Milliseconds since boot from the clock and the boot time, both in
/// seconds since the epoch; zero where the clock reads before boot.
pub open spec fn uptime_ms(now: i64, boot: i64) -> nat {
    if now > boot {
        ((now - boot) * 1000) as nat
    } else {
        0
    }
}

/// The uptime from the clock and the boot-time query: `None` stands for a
/// failed query and gives `Sysctl` naming it.
pub fn uptime(now: i64, boot: Option<i64>) -> (r: Result<u128, InfoError>)
    ensures
        match boot {
            None => r matches Err(e) && e@ == (ErrorView::Sysctl { name: "hw.boottime"@ }),
            Some(b) => r == Ok::<u128, InfoError>(uptime_ms(now, b) as u128),
        },
{
    let boot = match boot {
        None => {
            return Err(InfoError::Sysctl { name: String::from_str("hw.boottime") });
        },
        Some(b) => b,
    };
    if now > boot {
        let secs: u128 = (now as i128 - boot as i128) as u128;
        assert(secs * 1000 <= u128::MAX) by (nonlinear_arith)
            requires
                secs <= 0x1_0000_0000_0000_0000,
        ;
        Ok(secs * 1000)
    } else {
        Ok(0)
    }
}

/// The model identifier from the kernel's model query: NULs removed, trimmed.
pub open spec fn model_name_spec(raw: Seq<char>) -> Seq<char> {
    trim(remove_char(raw, '\0'))
}

/// Cleans the model identifier that the kernel's model query returned.
pub fn model_name(raw: &str) -> (r: String)
    ensures
        r@ == model_name_spec(raw@),
{
    string_of(&trim_chars(&without_char(&chars_of(raw), '\0')))
}

/// The motherboard: the marketing name for the model where the machine
/// attributes file has one (trimmed), else the model identifier; no vendor.
/// `None` for `model` stands for a failed model query.
pub fn motherboard_info(model: Option<&str>, marketing: Option<&str>) -> (r: Result<BaseBoard, InfoError>)
    ensures
        match model {
            None => r matches Err(e) && e@ == (ErrorView::Sysctl { name: "hw.model"@ }),
            Some(m) => r matches Ok(b) && b.vendor@.len() == 0 && b.model@ == match marketing {
                Some(k) => trim(k@),
                None => model_name_spec(m@),
            },
        },
{
    let m = match model {
        None => {
            return Err(InfoError::Sysctl { name: String::from_str("hw.model") });
        },
        Some(m) => m,
    };
    let name = match marketing {
        Some(k) => string_of(&trim_chars(&chars_of(k))),
        None => model_name(m),
    };
    Ok(BaseBoard { model: name, vendor: String::new() })
}

/// Physical memory from the total size, the free page count and the page
/// size; fails where the free pages come to more than the total.
pub fn memory_from_pages(total: u64, free_pages: u64, page_size: u64) -> (r: Result<Memory, InfoError>)
    ensures
        free_pages * page_size <= u64::MAX ==> match memory_of(total, (free_pages * page_size) as u64) {
            Ok(m) => r == Ok::<Memory, InfoError>(m),
            Err(e) => r matches Err(x) && x@ == e,
        },
        free_pages * page_size > u64::MAX ==> (r matches Err(x) && x@ == ErrorView::General(
            memory_total_mismatch(),
        )),
        r matches Ok(m) ==> m.wf(),
{
    match free_pages.checked_mul(page_size) {
        Some(available) => memory_from_totals(total, available),
        None => Err(InfoError::General(String::from_str("available memory exceeds total memory"))),
    }
}


/// Physical memory from the page size, the memory size and the free page
/// count; `None` stands for a query that failed, and the first failed one
/// is reported.
pub fn memory_info(page_size: Option<u64>, mem_size: Option<u64>, free_pages: Option<u64>) -> (r:
    Result<Memory, InfoError>)
    ensures
        page_size is None ==> (r matches Err(e) && e@ == (ErrorView::Sysctl { name: "hw.pagesize"@ })),
        page_size is Some && mem_size is None ==> (r matches Err(e) && e@ == (ErrorView::Sysctl {
            name: "hw.memsize"@,
        })),
        page_size is Some && mem_size is Some && free_pages is None ==> (r matches Err(e) && e@
            == ErrorView::General("Failed to get VM stats"@)),
        page_size is Some && mem_size is Some && free_pages is Some && free_pages->Some_0
            * page_size->Some_0 <= u64::MAX ==> match memory_of(
            mem_size->Some_0,
            (free_pages->Some_0 * page_size->Some_0) as u64,
        ) {
            Ok(m) => r == Ok::<Memory, InfoError>(m),
            Err(e) => r matches Err(x) && x@ == e,
        },
        page_size is Some && mem_size is Some && free_pages is Some && free_pages->Some_0
            * page_size->Some_0 > u64::MAX ==> (r matches Err(x) && x@ == ErrorView::General(
            memory_total_mismatch(),
        )),
        r matches Ok(m) ==> m.wf(),
{
    let p = match page_size {
        None => {
            return Err(InfoError::Sysctl { name: String::from_str("hw.pagesize") });
        },
        Some(p) => p,
    };
    let total = match mem_size {
        None => {
            return Err(InfoError::Sysctl { name: String::from_str("hw.memsize") });
        },
        Some(m) => m,
    };
    match free_pages {
        None => Err(InfoError::General(String::from_str("Failed to get VM stats"))),
        Some(f) => memory_from_pages(total, f, p),
    }
}

/// The macOS version heuristic: on the first line of the license text that
/// holds `SOFTWARE LICENSE AGREEMENT FOR macOS`, the last space-separated
/// word without `\`, trimmed (empty where no line holds it).
pub open spec fn macos_version(license: Seq<char>) -> Seq<char> {
    let lines = split(license, '\n');
    let line = match first_containing(lines, "SOFTWARE LICENSE AGREEMENT FOR macOS"@, 0) {
        Some(i) => lines[i],
        None => Seq::<char>::empty(),
    };
    trim(remove_char(split(line, ' ').last(), '\\'))
}

/// The macOS display name from the text of the license file; `None` stands
/// for a file that could not be read.
pub fn os_info(license: Option<&str>) -> (r: Result<(String, OsArt), InfoError>)
    ensures
        match license {
            None => r matches Err(e) && e@ == (ErrorView::FileRead { path: OS_DISPLAY_NAME_FILE@ }),
            Some(t) => r matches Ok(p) && p.0@ == "MacOS "@ + macos_version(t@) && p.1
                == OsArt::MacOS,
        },
{
    let t = match license {
        None => {
            return Err(InfoError::FileRead { path: String::from_str(OS_DISPLAY_NAME_FILE) });
        },
        Some(t) => chars_of(t),
    };
    let lines = split_chars(&t, '\n');
    let key = chars_of("SOFTWARE LICENSE AGREEMENT FOR macOS");
    let line = match find_containing(&lines, &key) {
        Some(i) => {
            proof {
                lemma_first_containing_bounds(views(lines@), key@, 0);
            }
            assert(views(lines@)[i as int] == lines@[i as int]@);
            copy_chars(&lines[i])
        },
        None => Vec::new(),
    };
    let words = split_chars(&line, ' ');
    proof {
        lemma_split_nonempty(line@, ' ');
    }
    let last = words.len() - 1;
    assert(views(words@)[last as int] == words@[last as int]@);
    let version = string_of(&trim_chars(&without_char(&words[last], '\\')));
    let mut name = String::from_str("MacOS ");
    name.append(version.as_str());
    Ok((name, OsArt::MacOS))
}


} // verus!
