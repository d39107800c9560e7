//! The host name, the motherboard and the local network address.
use vstd::prelude::*;
use crate::error::{ErrorView, InfoError};
use crate::gate::{SYS_BOARD_NAME, SYS_BOARD_VENDOR};
use crate::ipv4::{int_to_ipv4, ipv4_text};
use crate::model::{BaseBoard, Host, Net};
use crate::text::{chars_of, string_of, trim, trim_chars};

verus! {

pub const PROC_HOSTNAME: &'static str = "/proc/sys/kernel/hostname";

fn trimmed(s: &str) -> (r: String)
    ensures
        r@ == trim(s@),
{
    string_of(&trim_chars(&chars_of(s)))
}

/// The host name from the text of the kernel's hostname file, trimmed;
/// `None` stands for a file that could not be read.
pub fn hostname_info(hostname: Option<&str>) -> (r: Result<Host, InfoError>)
    ensures
        match hostname {
            None => r matches Err(e) && e@ == (ErrorView::FileRead { path: PROC_HOSTNAME@ }),
            Some(t) => r matches Ok(h) && h.hostname@ == trim(t@),
        },
{
    match hostname {
        None => Err(InfoError::FileRead { path: String::from_str(PROC_HOSTNAME) }),
        Some(t) => Ok(Host { hostname: trimmed(t) }),
    }
}

/// The motherboard from the texts of the board vendor and board name files,
/// each trimmed; the vendor file is read first.
pub fn motherboard_info(vendor: Option<&str>, name: Option<&str>) -> (r: Result<BaseBoard, InfoError>)
    ensures
        match vendor {
            None => r matches Err(e) && e@ == (ErrorView::FileRead { path: SYS_BOARD_VENDOR@ }),
            Some(v) => match name {
                None => r matches Err(e) && e@ == (ErrorView::FileRead { path: SYS_BOARD_NAME@ }),
                Some(n) => r matches Ok(b) && b.model@ == trim(n@) && b.vendor@ == trim(v@),
            },
        },
{
    let v = match vendor {
        None => {
            return Err(InfoError::FileRead { path: String::from_str(SYS_BOARD_VENDOR) });
        },
        Some(v) => v,
    };
    let n = match name {
        None => {
            return Err(InfoError::FileRead { path: String::from_str(SYS_BOARD_NAME) });
        },
        Some(n) => n,
    };
    Ok(BaseBoard { model: trimmed(n), vendor: trimmed(v) })
}

/// The network fact for the local address that the outbound route chose
/// (its 32-bit value, first octet most significant).
pub fn ip_info(local_addr: u32) -> (r: Net)
    ensures
        r.local_ip@ == ipv4_text(local_addr),
{
    Net { local_ip: int_to_ipv4(local_addr) }
}

} // verus!
