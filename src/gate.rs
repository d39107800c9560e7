//! The initialization gate: whether the platform's one-time setup has run,
//! held in a value that the driver owns and passes to the readers.
use vstd::prelude::*;
use crate::error::{ErrorView, InfoError};
use crate::cpu::{PROC_CPUINFO, PROC_UPTIME};
use crate::memory::PROC_MEMINFO;
use crate::os::ETC_LSB_RELEASE;

verus! {

pub const SYS_BOARD_VENDOR: &'static str = "/sys/devices/virtual/dmi/id/board_vendor";

pub const SYS_BOARD_NAME: &'static str = "/sys/devices/virtual/dmi/id/board_name";

/// Whether setup has run.
#[derive(Debug, Clone, Copy, PartialEq, Eq, Structural)]
pub struct Gate {
    pub initialized: bool,
}

impl Gate {
    /// A gate before setup.
    pub fn new() -> (r: Gate)
        ensures
            !r.initialized,
    {
        Gate { initialized: false }
    }
}

/// Which of the source files that the readers depend on exist.
#[derive(Debug, Clone, Copy, PartialEq, Eq, Structural, Default)]
pub struct SourcePresence {
    pub cpuinfo: bool,
    pub uptime: bool,
    pub meminfo: bool,
    pub board_name: bool,
    pub board_vendor: bool,
    pub lsb_release: bool,
    pub os_release: bool,
}

/// The first required path that is absent, in the order they are checked;
/// of the two release files one is enough, and where both are absent the
/// lsb file is named.
pub open spec fn first_missing(p: SourcePresence) -> Option<Seq<char>> {
    if !p.cpuinfo {
        Some(PROC_CPUINFO@)
    } else if !p.uptime {
        Some(PROC_UPTIME@)
    } else if !p.meminfo {
        Some(PROC_MEMINFO@)
    } else if !p.board_name {
        Some(SYS_BOARD_NAME@)
    } else if !p.board_vendor {
        Some(SYS_BOARD_VENDOR@)
    } else if !p.lsb_release && !p.os_release {
        Some(ETC_LSB_RELEASE@)
    } else {
        None
    }
}

fn missing(path: &str) -> (r: Result<(), InfoError>)
    ensures
        r matches Err(e) && e@ == (ErrorView::MissingFile { path: path@ }),
{
    Err(InfoError::MissingFile { path: String::from_str(path) })
}

/// Marks setup as done where every file the readers need exists; else
/// fails with `MissingFile` naming the first absent path, changing nothing.
pub fn init(gate: &mut Gate, present: &SourcePresence) -> (r: Result<(), InfoError>)
    ensures
        match first_missing(*present) {
            Some(path) => r matches Err(e) && e@ == (ErrorView::MissingFile { path })
                && *final(gate) == *old(gate),
            None => r is Ok && final(gate).initialized,
        },
{
    if !present.cpuinfo {
        return missing(PROC_CPUINFO);
    }
    if !present.uptime {
        return missing(PROC_UPTIME);
    }
    if !present.meminfo {
        return missing(PROC_MEMINFO);
    }
    if !present.board_name {
        return missing(SYS_BOARD_NAME);
    }
    if !present.board_vendor {
        return missing(SYS_BOARD_VENDOR);
    }
    if !present.lsb_release && !present.os_release {
        return missing(ETC_LSB_RELEASE);
    }
    gate.initialized = true;
    Ok(())
}

/// Runs setup where it has not run yet; where it has, succeeds and
/// changes nothing.
pub fn ensure_init(gate: &mut Gate, present: &SourcePresence) -> (r: Result<(), InfoError>)
    ensures
        old(gate).initialized ==> r is Ok && *final(gate) == *old(gate),
        !old(gate).initialized ==> match first_missing(*present) {
            Some(path) => r matches Err(e) && e@ == (ErrorView::MissingFile { path })
                && *final(gate) == *old(gate),
            None => r is Ok && final(gate).initialized,
        },
{
    if initialized(gate) {
        Ok(())
    } else {
        init(gate, present)
    }
}

/// Whether setup has run.
pub fn initialized(gate: &Gate) -> (r: bool)
    ensures
        r == gate.initialized,
{
    gate.initialized
}

} // verus!
