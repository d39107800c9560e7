//! Decisions of the Windows backend, over the plain values that the
//! system information, the management queries, the registry and the
//! process snapshot hand back.
use vstd::prelude::*;
use crate::error::{ErrorView, InfoError};
use crate::gate::Gate;
use crate::memory::{memory_from_totals, memory_of};
use crate::caller::message_with_number;
use crate::model::{Host, Memory, OsArt};
use crate::number::{dec, push_decimal};
use crate::text::{
    chars_equal, chars_of, copy_chars, lemma_split_nonempty, split, split_chars, string_of, trim, trim_chars,
    views,
};

verus! {

/// Setup: the socket subsystem is started by the caller before this; its
/// result is not a failure here, so setup always succeeds.
pub fn init(gate: &mut Gate) -> (r: Result<(), InfoError>)
    ensures
        r is Ok,
        final(gate).initialized,
{
    gate.initialized = true;
    Ok(())
}

/// The text of a NUL-terminated buffer: everything before the first NUL.
pub open spec fn before_nul(buffer: Seq<char>) -> Seq<char> {
    split(buffer, '\0')[0]
}

fn before_nul_of(buffer: &str) -> (r: Vec<char>)
    ensures
        r@ == before_nul(buffer@),
{
    let parts = split_chars(&chars_of(buffer), '\0');
    proof {
        lemma_split_nonempty(buffer@, '\0');
    }
    assert(views(parts@)[0] == parts@[0]@);
    copy_chars(&parts[0])
}

/// The message for a failed host-name call, by its socket error code.
pub open spec fn hostname_failure(code: i32) -> Seq<char> {
    if code == 10014 {
        "gethostname failed: WSAEFAULT"@
    } else if code == 10093 {
        "gethostname failed: WSASTARTUP NOT RAN"@
    } else if code == 10036 {
        "gethostname failed: IN PROGRESS"@
    } else {
        "gethostname failed"@
    }
}

/// The host name from the host-name call: its buffer where it succeeded,
/// else its socket error code (`WSAEFAULT`, `WSANOTINITIALISED`,
/// `WSAEINPROGRESS` are named in the message).
pub fn hostname_info(result: Result<&str, i32>) -> (r: Result<Host, InfoError>)
    ensures
        match result {
            Ok(b) => r matches Ok(h) && h.hostname@ == trim(before_nul(b@)),
            Err(code) => r matches Err(e) && e@ == ErrorView::General(hostname_failure(code)),
        },
{
    match result {
        Ok(b) => Ok(Host { hostname: string_of(&trim_chars(&before_nul_of(b))) }),
        Err(code) => {
            let m = if code == 10014 {
                "gethostname failed: WSAEFAULT"
            } else if code == 10093 {
                "gethostname failed: WSASTARTUP NOT RAN"
            } else if code == 10036 {
                "gethostname failed: IN PROGRESS"
            } else {
                "gethostname failed"
            };
            Err(InfoError::General(String::from_str(m)))
        },
    }
}

/// The user name from the user-name call: its buffer where it succeeded,
/// else its error code.
pub fn caller_name(result: Result<&str, u32>) -> (r: Result<String, InfoError>)
    ensures
        match result {
            Ok(b) => r matches Ok(n) && n@ == before_nul(b@),
            Err(code) => r matches Err(e) && e@ == ErrorView::General(
                "GetUserNameA failed: code "@ + dec(code as nat),
            ),
        },
{
    match result {
        Ok(b) => Ok(string_of(&before_nul_of(b))),
        Err(code) => {
            let m = message_with_number("GetUserNameA failed: code ", code, "");
            proof {
                reveal_strlit("");
                assert(m@ =~= "GetUserNameA failed: code "@ + dec(code as nat));
            }
            Err(InfoError::General(m))
        },
    }
}

/// Physical memory from the memory status call: `None` where the call
/// failed, else its total and available physical memory.
pub fn memory_info(status: Option<(u64, u64)>) -> (r: Result<Memory, InfoError>)
    ensures
        match status {
            None => r matches Err(e) && e@ == ErrorView::General("GlobalMemoryStatusEx failed."@),
            Some(s) => match memory_of(s.0, s.1) {
                Ok(m) => r == Ok::<Memory, InfoError>(m),
                Err(e) => r matches Err(x) && x@ == e,
            },
        },
        r matches Ok(m) ==> m.wf(),
{
    match status {
        None => Err(InfoError::General(String::from_str("GlobalMemoryStatusEx failed."))),
        Some((total, available)) => memory_from_totals(total, available),
    }
}

/// A value of a management-query result field.
#[derive(Debug, Clone, PartialEq, Eq)]
pub enum QueryValue {
    /// A string field.
    Text(String),
    /// An unsigned 32-bit field.
    Count(u32),
    /// A field of any other type.
    Other,
}

/// The fields of one processor row that the backend reads; `None` is a
/// field the row does not hold.
#[derive(Debug, Clone, PartialEq, Eq)]
pub struct ProcessorRow {
    pub name: Option<QueryValue>,
    pub current_clock_speed: Option<QueryValue>,
}

pub open spec fn name_clock_spec(rows: Seq<ProcessorRow>) -> Result<(Seq<char>, u64), ErrorView> {
    if rows.len() == 0 {
        Err(
            ErrorView::General(
                "WMI: 'Name, CurrentClockSpeed from Win32_Processor' failed: empty result"@,
            ),
        )
    } else {
        let row = rows[0];
        match row.name {
            None => Err(ErrorView::General("WMI: 'Win32_Processor' failed: 'Name' not found"@)),
            Some(n) => match row.current_clock_speed {
                None => Err(
                    ErrorView::General(
                        "WMI: 'Win32_Processor' failed: 'CurrentClockSpeed' not found"@,
                    ),
                ),
                Some(c) => Ok(
                    (
                        match n {
                            QueryValue::Text(t) => trim(t@),
                            _ => "UNAVAILABLE"@,
                        },
                        match c {
                            QueryValue::Count(mhz) => (mhz * 1000) as u64,
                            _ => 0,
                        },
                    ),
                ),
            },
        }
    }
}

/// The processor name and clock rate in kilohertz from the rows of the
/// processor query; only the first row counts, a name of another type than
/// text reads `UNAVAILABLE` and a clock of another type reads zero.
pub fn cpu_name_clock(rows: &Vec<ProcessorRow>) -> (r: Result<(String, u64), InfoError>)
    ensures
        match name_clock_spec(rows@) {
            Ok(v) => r matches Ok(p) && p.0@ == v.0 && p.1 == v.1,
            Err(e) => r matches Err(x) && x@ == e,
        },
{
    if rows.len() == 0 {
        return Err(
            InfoError::General(
                String::from_str(
                    "WMI: 'Name, CurrentClockSpeed from Win32_Processor' failed: empty result",
                ),
            ),
        );
    }
    let row = &rows[0];
    let name = match &row.name {
        None => {
            return Err(
                InfoError::General(
                    String::from_str("WMI: 'Win32_Processor' failed: 'Name' not found"),
                ),
            );
        },
        Some(QueryValue::Text(t)) => string_of(&trim_chars(&chars_of(t.as_str()))),
        Some(_) => String::from_str("UNAVAILABLE"),
    };
    let clock: u64 = match &row.current_clock_speed {
        None => {
            return Err(
                InfoError::General(
                    String::from_str("WMI: 'Win32_Processor' failed: 'CurrentClockSpeed' not found"),
                ),
            );
        },
        Some(QueryValue::Count(mhz)) => (*mhz as u64) * 1000,
        Some(_) => 0,
    };
    Ok((name, clock))
}

pub open spec fn core_thread_spec(processors: u32, cores: Seq<Option<QueryValue>>) -> Result<(usize, usize), ErrorView> {
    if cores.len() == 0 {
        Err(ErrorView::General("WMI: 'NumberOfCores from Win32_Processor' failed: empty result"@))
    } else {
        match cores[0] {
            None => Err(
                ErrorView::General(
                    "WMI: 'NumberOfCores from Win32_Processor' failed: 'NumberOfCores' not found"@,
                ),
            ),
            Some(QueryValue::Count(n)) => Ok((n as usize, processors as usize)),
            Some(_) => Ok((0, processors as usize)),
        }
    }
}

/// The core and thread counts `(cores, threads)`: threads from the system
/// information's processor count, cores from the first row of the core
/// query (zero where that field is not a count).
pub fn core_thread_count(processors: u32, cores: &Vec<Option<QueryValue>>) -> (r: Result<(usize, usize), InfoError>)
    ensures
        match core_thread_spec(processors, cores@) {
            Ok(v) => r == Ok::<(usize, usize), InfoError>(v),
            Err(e) => r matches Err(x) && x@ == e,
        },
{
    if cores.len() == 0 {
        return Err(
            InfoError::General(
                String::from_str("WMI: 'NumberOfCores from Win32_Processor' failed: empty result"),
            ),
        );
    }
    match &cores[0] {
        None => Err(
            InfoError::General(
                String::from_str(
                    "WMI: 'NumberOfCores from Win32_Processor' failed: 'NumberOfCores' not found",
                ),
            ),
        ),
        Some(QueryValue::Count(n)) => Ok((*n as usize, processors as usize)),
        Some(_) => Ok((0, processors as usize)),
    }
}

/// The parent of `pid` in a process snapshot of `(process, parent)` pairs:
/// the parent on the first entry for `pid`, zero where there is none.
pub open spec fn parent_spec(entries: Seq<(u32, u32)>, pid: u32, from: int) -> u32
    decreases entries.len() - from,
{
    if from < 0 || from >= entries.len() {
        0
    } else if entries[from].0 == pid {
        entries[from].1
    } else {
        parent_spec(entries, pid, from + 1)
    }
}

/// Finds the parent process id of `pid` in a process snapshot.
pub fn parent_pid(entries: &Vec<(u32, u32)>, pid: u32) -> (r: u32)
    ensures
        r == parent_spec(entries@, pid, 0),
{
    let mut i: usize = 0;
    while i < entries.len()
        invariant
            parent_spec(entries@, pid, 0) == parent_spec(entries@, pid, i as int),
        decreases entries.len() - i,
    {
        if entries[i].0 == pid {
            return entries[i].1;
        }
        i += 1;
    }
    0
}

/// The index of the last `c` in `s` before `to`, if any.
pub open spec fn last_index(s: Seq<char>, c: char, to: int) -> Option<int>
    decreases to,
{
    if to <= 0 || to > s.len() {
        None
    } else if s[to - 1] == c {
        Some(to - 1)
    } else {
        last_index(s, c, to - 1)
    }
}

/// The stem of a file name: the part before its last `.`, unless that `.`
/// is the first character.
pub open spec fn file_stem(w: Seq<char>) -> Seq<char> {
    match last_index(w, '.', w.len() as int) {
        Some(i) => if i > 0 {
            w.take(i)
        } else {
            w
        },
        None => w,
    }
}

/// The shell's name from a module path: its last `\`-separated part
/// without the extension.
pub open spec fn module_shell_name(module: Seq<char>) -> Seq<char> {
    file_stem(split(module, '\\').last())
}

/// The shell's name from the executable path of the parent module.
pub fn module_shell_name_of(module: &str) -> (r: String)
    ensures
        r@ == module_shell_name(module@),
{
    let m = chars_of(module);
    let parts = split_chars(&m, '\\');
    proof {
        lemma_split_nonempty(m@, '\\');
    }
    let last = parts.len() - 1;
    assert(views(parts@)[last as int] == parts@[last as int]@);
    let w = &parts[last];
    let mut k: usize = w.len();
    while k > 0 && w[k - 1] != '.'
        invariant
            k <= w.len(),
            last_index(w@, '.', w.len() as int) == last_index(w@, '.', k as int),
        decreases k,
    {
        k -= 1;
    }
    let mut r: Vec<char> = Vec::new();
    let end: usize = if k > 1 {
        k - 1
    } else {
        w.len()
    };
    let mut i: usize = 0;
    while i < end
        invariant
            i <= end <= w.len(),
            r@ == w@.take(i as int),
        decreases end - i,
    {
        r.push(w[i]);
        i += 1;
        assert(r@ =~= w@.take(i as int));
    }
    assert(w@.take(w.len() as int) =~= w@);
    string_of(&r)
}

/// The friendly name of a Windows `major.minor` version string.
pub open spec fn windows_release(v: Seq<char>) -> Option<Seq<char>> {
    if v == "10.00"@ {
        Some("10/11"@)
    } else if v == "6.03"@ {
        Some("8.1"@)
    } else if v == "6.02"@ {
        Some("8"@)
    } else if v == "6.01"@ {
        Some("7"@)
    } else if v == "6.00"@ {
        Some("Vista"@)
    } else if v == "5.02"@ {
        Some("Server 2003"@)
    } else if v == "5.01"@ {
        Some("XP"@)
    } else {
        None
    }
}

/// `major.minor`, the minor number written with at least two digits.
pub open spec fn windows_version(major: u32, minor: u32) -> Seq<char> {
    let m = dec(minor as nat);
    dec(major as nat) + "."@ + if m.len() < 2 {
        seq!['0'] + m
    } else {
        m
    }
}

pub open spec fn windows_name(major: u32, minor: u32) -> Seq<char> {
    match windows_release(windows_version(major, minor)) {
        Some(f) => "Windows "@ + f,
        None => "Windows"@,
    }
}

fn windows_release_of(v: &Vec<char>) -> (r: Option<&'static str>)
    ensures
        match r {
            Some(f) => windows_release(v@) == Some(f@),
            None => windows_release(v@) is None,
        },
{
    if chars_equal(v, &chars_of("10.00")) {
        Some("10/11")
    } else if chars_equal(v, &chars_of("6.03")) {
        Some("8.1")
    } else if chars_equal(v, &chars_of("6.02")) {
        Some("8")
    } else if chars_equal(v, &chars_of("6.01")) {
        Some("7")
    } else if chars_equal(v, &chars_of("6.00")) {
        Some("Vista")
    } else if chars_equal(v, &chars_of("5.02")) {
        Some("Server 2003")
    } else if chars_equal(v, &chars_of("5.01")) {
        Some("XP")
    } else {
        None
    }
}

/// The Windows name and banner for the version numbers of the registry's
/// current-version key.
pub fn os_info(major: u32, minor: u32) -> (r: (String, OsArt))
    ensures
        r.0@ == windows_name(major, minor),
        r.1 == if windows_version(major, minor) == "10.00"@ {
            OsArt::Windows1011
        } else {
            OsArt::Windows
        },
{
    let mut v: Vec<char> = Vec::new();
    push_decimal(&mut v, major as u64);
    v.push('.');
    let mut m: Vec<char> = Vec::new();
    push_decimal(&mut m, minor as u64);
    assert(m@ == dec(minor as nat));
    if m.len() < 2 {
        v.push('0');
    }
    let ghost before = v@;
    let mut k: usize = 0;
    while k < m.len()
        invariant
            k <= m.len(),
            v@ == before + m@.take(k as int),
        decreases m.len() - k,
    {
        v.push(m[k]);
        k += 1;
        assert(v@ =~= before + m@.take(k as int));
    }
    proof {
        reveal_strlit(".");
        assert(m@.take(m.len() as int) =~= m@);
        assert(v@ =~= windows_version(major, minor));
    }
    let art = if chars_equal(&v, &chars_of("10.00")) {
        OsArt::Windows1011
    } else {
        OsArt::Windows
    };
    match windows_release_of(&v) {
        Some(f) => {
            let mut name = String::from_str("Windows ");
            name.append(f);
            (name, art)
        },
        None => (String::from_str("Windows"), art),
    }
}


} // verus!
