//! The snapshot types: one value per fact about the host.
use vstd::prelude::*;

verus! {

/// Processor facts.
#[derive(Debug, Clone, PartialEq, Eq, Hash, Default)]
pub struct Cpu {
    /// Processor model name.
    pub name: String,
    /// Time since boot, in milliseconds.
    pub uptime: u128,
    /// Physical core count.
    pub cores: usize,
    /// Logical processor count.
    pub threads: usize,
    /// Clock rate in kilohertz (thousandths of the megahertz figure).
    pub clock_rate_khz: u64,
}

/// Physical memory figures, in the unit of the source they were read from:
/// bytes from the system calls, and on Linux the `kB` figures of
/// `/proc/meminfo` taken as written, without conversion.
#[derive(Debug, Clone, Copy, PartialEq, Eq, Structural, PartialOrd, Ord, Hash, Default)]
pub struct Memory {
    pub total: u64,
    pub available: u64,
    pub used: u64,
}

impl Memory {
    /// What every snapshot satisfies: the used part is what is not available.
    pub open spec fn wf(self) -> bool {
        self.available <= self.total && self.used == self.total - self.available
    }
}

/// The family of the operating system the program was built for.
#[derive(Debug, Clone, Copy, PartialEq, Eq, Structural, PartialOrd, Ord, Hash, Default)]
pub enum OsKind {
    Linux,
    Windows,
    MacOs,
    FreeBsd,
    #[default]
    Unknown,
}

/// Which banner goes with the report.
#[derive(Debug, Clone, Copy, PartialEq, Eq, Structural, PartialOrd, Ord, Hash, Default)]
pub enum OsArt {
    ArchLinux,
    AlpineLinux,
    Debian,
    Windows,
    Windows1011,
    MacOS,
    #[default]
    Unknown,
}

/// The local address used to reach the internet.
#[derive(Debug, Clone, PartialEq, Eq, PartialOrd, Ord, Hash, Default)]
pub struct Net {
    /// Dotted-decimal IPv4 address.
    pub local_ip: String,
}

/// The motherboard.
#[derive(Debug, Clone, PartialEq, Eq, PartialOrd, Ord, Hash, Default)]
pub struct BaseBoard {
    pub model: String,
    pub vendor: String,
}

/// The host's name.
#[derive(Debug, Clone, PartialEq, Eq, PartialOrd, Ord, Hash, Default)]
pub struct Host {
    pub hostname: String,
}

/// Who runs the program, and from which shell.
#[derive(Debug, Clone, PartialEq, Eq, PartialOrd, Ord, Hash, Default)]
pub struct Caller {
    pub name: String,
    pub shell: String,
}

/// The operating system.
#[derive(Debug, Clone, PartialEq, Eq, PartialOrd, Ord, Hash, Default)]
pub struct OperatingSystem {
    pub name: String,
    pub kind: OsKind,
    pub art: OsArt,
}

impl BaseBoard {
    /// `BOARD <model> (<vendor>)`, without the parenthesis where the vendor is empty.
    pub fn render(&self) -> (r: String)
        ensures
            r@ == "BOARD "@ + self.model@ + if self.vendor@.len() == 0 {
                Seq::<char>::empty()
            } else {
                " ("@ + self.vendor@ + ")"@
            },
    {
        let mut s = String::from_str("BOARD ");
        s.append(self.model.as_str());
        if self.vendor.as_str().unicode_len() > 0 {
            s.append(" (");
            s.append(self.vendor.as_str());
            s.append(")");
        }
        s
    }
}

impl Host {
    /// `HOST: <hostname>`.
    pub fn render(&self) -> (r: String)
        ensures
            r@ == "HOST: "@ + self.hostname@,
    {
        let mut s = String::from_str("HOST: ");
        s.append(self.hostname.as_str());
        s
    }
}

impl Net {
    /// `LAN: <address> (IPV4)`.
    pub fn render(&self) -> (r: String)
        ensures
            r@ == "LAN: "@ + self.local_ip@ + " (IPV4)"@,
    {
        let mut s = String::from_str("LAN: ");
        s.append(self.local_ip.as_str());
        s.append(" (IPV4)");
        s
    }
}

impl Caller {
    /// `USER: <name>` and `SHELL: <shell>` on two lines.
    pub fn render(&self) -> (r: String)
        ensures
            r@ == "USER: "@ + self.name@ + "\nSHELL: "@ + self.shell@,
    {
        let mut s = String::from_str("USER: ");
        s.append(self.name.as_str());
        s.append("\nSHELL: ");
        s.append(self.shell.as_str());
        s
    }
}

pub open spec fn kind_name(k: OsKind) -> Seq<char> {
    match k {
        OsKind::Linux => "linux"@,
        OsKind::Windows => "windows"@,
        OsKind::MacOs => "macos"@,
        OsKind::FreeBsd => "freebsd"@,
        OsKind::Unknown => "Unknown"@,
    }
}

impl OsKind {
    /// The kind's name: `linux`, `windows`, `macos`, `freebsd` or `Unknown`.
    pub fn name(&self) -> (r: &'static str)
        ensures
            r@ == kind_name(*self),
    {
        match self {
            OsKind::Linux => "linux",
            OsKind::Windows => "windows",
            OsKind::MacOs => "macos",
            OsKind::FreeBsd => "freebsd",
            OsKind::Unknown => "Unknown",
        }
    }
}

impl OperatingSystem {
    /// `OS: <name> (<kind>)`.
    pub fn render(&self) -> (r: String)
        ensures
            r@ == "OS: "@ + self.name@ + " ("@ + kind_name(self.kind) + ")"@,
    {
        let mut s = String::from_str("OS: ");
        s.append(self.name.as_str());
        s.append(" (");
        s.append(self.kind.name());
        s.append(")");
        s
    }
}

} // verus!
