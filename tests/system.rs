use rinfo::board::{hostname_info, motherboard_info};
use rinfo::caller::{caller_info, caller_shell, caller_user, shell_name_of};
use rinfo::config::Config;
use rinfo::error::InfoError;
use rinfo::gate::{ensure_init, init, initialized, Gate, SourcePresence};
use rinfo::model::{BaseBoard, Caller, Host};

fn all_present() -> SourcePresence {
    SourcePresence {
        cpuinfo: true,
        uptime: true,
        meminfo: true,
        board_name: true,
        board_vendor: true,
        lsb_release: true,
        os_release: true,
    }
}

#[test]
fn gate_opens_when_every_source_exists() {
    let mut gate = Gate::new();
    assert!(!initialized(&gate));
    assert_eq!(init(&mut gate, &all_present()), Ok(()));
    assert!(initialized(&gate));
    assert_eq!(init(&mut gate, &all_present()), Ok(()));
    assert!(initialized(&gate));
}

#[test]
fn gate_names_first_missing_source() {
    let mut gate = Gate::new();
    let mut p = all_present();
    p.cpuinfo = false;
    p.meminfo = false;
    assert_eq!(
        init(&mut gate, &p),
        Err(InfoError::MissingFile { path: "/proc/cpuinfo".to_string() })
    );
    assert!(!initialized(&gate));
    let mut p = all_present();
    p.os_release = false;
    assert_eq!(init(&mut gate, &p), Ok(()));
    let mut gate = Gate::new();
    let mut p = all_present();
    p.os_release = false;
    p.lsb_release = false;
    assert_eq!(
        init(&mut gate, &p),
        Err(InfoError::MissingFile { path: "/etc/lsb-release".to_string() })
    );
}

#[test]
fn shell_names() {
    assert_eq!(shell_name_of("/usr/bin/zsh"), "zsh");
    assert_eq!(shell_name_of("-bash"), "bash");
    assert_eq!(shell_name_of("fish"), "fish");
    assert_eq!(shell_name_of("/usr/bin/bash/"), "bash");
    assert_eq!(shell_name_of("/bin/./"), "bin");
    assert_eq!(shell_name_of(".."), "");
    assert_eq!(shell_name_of("/usr/.."), "");
    assert_eq!(shell_name_of("/"), "");
    assert_eq!(shell_name_of("."), "");
    assert_eq!(caller_shell(Some(".."), None, 1), Ok(String::new()));
}

#[test]
fn caller_sources_in_order() {
    assert_eq!(caller_user(Some("ann"), 7, Some("root")), Ok("ann".to_string()));
    assert_eq!(caller_user(None, 7, Some("root")), Ok("root".to_string()));
    assert_eq!(
        caller_user(None, 1001, None),
        Err(InfoError::General("Unable to get username from UID '1001'".to_string()))
    );
    assert_eq!(caller_shell(None, Some("/bin/dash"), 1), Ok("dash".to_string()));
    assert_eq!(
        caller_shell(None, None, 42),
        Err(InfoError::General("Couldn't readlink '/proc/42/exe'".to_string()))
    );
}

#[test]
fn whole_caller() {
    let c = caller_info(Some("ann"), 0, None, Some("-zsh"), None, 1).unwrap();
    assert_eq!(c, Caller { name: "ann".to_string(), shell: "zsh".to_string() });
    assert_eq!(c.render(), "USER: ann\nSHELL: zsh");
}

#[test]
fn hostname_is_trimmed() {
    assert_eq!(
        hostname_info(Some("  box\n")),
        Ok(Host { hostname: "box".to_string() })
    );
    assert_eq!(Host { hostname: "box".to_string() }.render(), "HOST: box");
    assert_eq!(
        hostname_info(None),
        Err(InfoError::FileRead { path: "/proc/sys/kernel/hostname".to_string() })
    );
}

#[test]
fn motherboard_fact() {
    let b = motherboard_info(Some("ASUSTeK\n"), Some("PRIME B450\n")).unwrap();
    assert_eq!(b, BaseBoard { model: "PRIME B450".to_string(), vendor: "ASUSTeK".to_string() });
    assert_eq!(b.render(), "BOARD PRIME B450 (ASUSTeK)");
    let bare = BaseBoard { model: "X".to_string(), vendor: String::new() };
    assert_eq!(bare.render(), "BOARD X");
    assert_eq!(
        motherboard_info(None, Some("x")),
        Err(InfoError::FileRead {
            path: "/sys/devices/virtual/dmi/id/board_vendor".to_string()
        })
    );
    assert_eq!(
        motherboard_info(Some("x"), None),
        Err(InfoError::FileRead { path: "/sys/devices/virtual/dmi/id/board_name".to_string() })
    );
}

#[test]
fn error_codes_and_messages() {
    let e = InfoError::FileParseError { path: "/p".to_string(), reason: "r".to_string() };
    assert_eq!(e.exit_code(), 65);
    assert_eq!(e.message(), "FileParseError: couldn't parse from file '/p': r");
    let e = InfoError::Sysctl { name: "hw.memsize".to_string() };
    assert_eq!(e.exit_code(), 71);
    assert_eq!(e.message(), "SysctlError: couldn't get 'hw.memsize'");
    let e = InfoError::MissingFile { path: "/x".to_string() };
    assert_eq!(e.exit_code(), 72);
    assert_eq!(e.message(), "MissingFileError: '/x' isn't an existing file");
    let e = InfoError::FileRead { path: "/y".to_string() };
    assert_eq!(e.exit_code(), 74);
    assert_eq!(e.message(), "ReadError: couldn't read file '/y'");
    let e = InfoError::General("boom".to_string());
    assert_eq!(e.exit_code(), 64);
    assert_eq!(e.message(), "Error: Unexpected Error: boom");
}

#[test]
fn combine_keeps_every_flag_that_is_on() {
    let mut a = Config { omit_cpu: true, ..Config::default() };
    let b = Config { omit_ram: true, vertical_art: true, ..Config::default() };
    a.combine(b);
    assert!(a.omit_cpu && a.omit_ram && a.vertical_art);
    assert!(!a.omit_os && !a.omit_art && !a.omit_ip);
}

#[test]
fn setup_runs_once() {
    let mut gate = Gate::new();
    let mut missing = all_present();
    missing.uptime = false;
    assert_eq!(
        ensure_init(&mut gate, &missing),
        Err(InfoError::MissingFile { path: "/proc/uptime".to_string() })
    );
    assert!(!initialized(&gate));
    assert_eq!(ensure_init(&mut gate, &all_present()), Ok(()));
    assert!(initialized(&gate));
    assert_eq!(ensure_init(&mut gate, &missing), Ok(()));
    assert!(initialized(&gate));
}
