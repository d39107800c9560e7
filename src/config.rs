//! Which parts of the report to leave out, and where the banner goes.
use vstd::prelude::*;

verus! {

/// Display options; each flag is off unless some source turns it on.
#[derive(Debug, Clone, Copy, PartialEq, Eq, Structural, PartialOrd, Ord, Hash, Default)]
pub struct Config {
    pub omit_cpu: bool,
    pub omit_ram: bool,
    pub omit_motherboard: bool,
    pub omit_caller: bool,
    pub omit_hostname: bool,
    pub omit_os: bool,
    pub omit_art: bool,
    pub omit_ip: bool,
    pub vertical_art: bool,
}

impl Config {
    /// Merges another source of options: a flag that either turns on stays on.
    pub fn combine(&mut self, other: Self)
        ensures
            final(self).omit_cpu == (old(self).omit_cpu || other.omit_cpu),
            final(self).omit_ram == (old(self).omit_ram || other.omit_ram),
            final(self).omit_motherboard == (old(self).omit_motherboard
                || other.omit_motherboard),
            final(self).omit_caller == (old(self).omit_caller || other.omit_caller),
            final(self).omit_hostname == (old(self).omit_hostname || other.omit_hostname),
            final(self).omit_os == (old(self).omit_os || other.omit_os),
            final(self).omit_art == (old(self).omit_art || other.omit_art),
            final(self).omit_ip == (old(self).omit_ip || other.omit_ip),
            final(self).vertical_art == (old(self).vertical_art || other.vertical_art),
    {
        self.omit_cpu = self.omit_cpu || other.omit_cpu;
        self.omit_ram = self.omit_ram || other.omit_ram;
        self.omit_motherboard = self.omit_motherboard || other.omit_motherboard;
        self.omit_caller = self.omit_caller || other.omit_caller;
        self.omit_hostname = self.omit_hostname || other.omit_hostname;
        self.omit_os = self.omit_os || other.omit_os;
        self.omit_art = self.omit_art || other.omit_art;
        self.omit_ip = self.omit_ip || other.omit_ip;
        self.vertical_art = self.vertical_art || other.vertical_art;
    }
}

} // verus!
