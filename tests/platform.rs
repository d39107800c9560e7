use rinfo::error::InfoError;
use rinfo::model::Memory;
use rinfo::gate::{initialized, Gate};
use rinfo::macos::{self, memory_from_pages, uptime};
use rinfo::model::{BaseBoard, Host, OsArt};
use rinfo::win::{
    self, core_thread_count, cpu_name_clock, module_shell_name_of, parent_pid, ProcessorRow,
    QueryValue,
};

fn row(name: Option<QueryValue>, clock: Option<QueryValue>) -> ProcessorRow {
    ProcessorRow { name, current_clock_speed: clock }
}

#[test]
fn processor_row_gives_name_and_clock() {
    let rows = vec![
        row(Some(QueryValue::Text(" AMD Ryzen 5 ".to_string())), Some(QueryValue::Count(3600))),
        row(Some(QueryValue::Text("ignored".to_string())), Some(QueryValue::Count(1))),
    ];
    assert_eq!(cpu_name_clock(&rows), Ok(("AMD Ryzen 5".to_string(), 3_600_000)));
}

#[test]
fn processor_row_of_other_types() {
    let rows = vec![row(Some(QueryValue::Other), Some(QueryValue::Other))];
    assert_eq!(cpu_name_clock(&rows), Ok(("UNAVAILABLE".to_string(), 0)));
}

#[test]
fn processor_row_errors() {
    assert_eq!(
        cpu_name_clock(&vec![]),
        Err(InfoError::General(
            "WMI: 'Name, CurrentClockSpeed from Win32_Processor' failed: empty result".to_string()
        ))
    );
    assert_eq!(
        cpu_name_clock(&vec![row(None, Some(QueryValue::Count(1)))]),
        Err(InfoError::General("WMI: 'Win32_Processor' failed: 'Name' not found".to_string()))
    );
    assert_eq!(
        cpu_name_clock(&vec![row(Some(QueryValue::Other), None)]),
        Err(InfoError::General(
            "WMI: 'Win32_Processor' failed: 'CurrentClockSpeed' not found".to_string()
        ))
    );
}

#[test]
fn core_query() {
    assert_eq!(core_thread_count(8, &vec![Some(QueryValue::Count(4))]), Ok((4, 8)));
    assert_eq!(core_thread_count(8, &vec![Some(QueryValue::Other)]), Ok((0, 8)));
    assert!(core_thread_count(8, &vec![None]).is_err());
    assert!(core_thread_count(8, &vec![]).is_err());
}

#[test]
fn parent_process() {
    let snapshot = vec![(4, 0), (100, 4), (200, 100), (100, 9)];
    assert_eq!(parent_pid(&snapshot, 200), 100);
    assert_eq!(parent_pid(&snapshot, 100), 4);
    assert_eq!(parent_pid(&snapshot, 7), 0);
}

#[test]
fn module_names() {
    assert_eq!(module_shell_name_of("C:\\Windows\\System32\\cmd.exe"), "cmd");
    assert_eq!(module_shell_name_of("pwsh.exe"), "pwsh");
    assert_eq!(module_shell_name_of("archive.tar.gz"), "archive.tar");
    assert_eq!(module_shell_name_of(".profile"), ".profile");
    assert_eq!(module_shell_name_of("bash"), "bash");
}

#[test]
fn memory_from_page_counts() {
    assert_eq!(
        memory_from_pages(16384, 1, 4096),
        Ok(Memory { total: 16384, available: 4096, used: 12288 })
    );
    assert!(memory_from_pages(100, 1, 4096).is_err());
    assert!(memory_from_pages(u64::MAX, u64::MAX, 2).is_err());
}

#[test]
fn uptime_from_boot_time() {
    assert_eq!(uptime(1_700_000_100, Some(1_700_000_000)), Ok(100_000));
    assert_eq!(uptime(5, Some(5)), Ok(0));
    assert_eq!(uptime(4, Some(5)), Ok(0));
    assert_eq!(uptime(i64::MAX, Some(i64::MIN)), Ok((u64::MAX as u128) * 1000));
    assert_eq!(
        uptime(5, None),
        Err(InfoError::Sysctl { name: "hw.boottime".to_string() })
    );
}

#[test]
fn windows_versions() {
    assert_eq!(win::os_info(10, 0), ("Windows 10/11".to_string(), OsArt::Windows1011));
    assert_eq!(win::os_info(6, 3), ("Windows 8.1".to_string(), OsArt::Windows));
    assert_eq!(win::os_info(6, 2), ("Windows 8".to_string(), OsArt::Windows));
    assert_eq!(win::os_info(6, 1), ("Windows 7".to_string(), OsArt::Windows));
    assert_eq!(win::os_info(6, 0), ("Windows Vista".to_string(), OsArt::Windows));
    assert_eq!(win::os_info(5, 2), ("Windows Server 2003".to_string(), OsArt::Windows));
    assert_eq!(win::os_info(5, 1), ("Windows XP".to_string(), OsArt::Windows));
    assert_eq!(win::os_info(6, 30), ("Windows".to_string(), OsArt::Windows));
    assert_eq!(win::os_info(11, 0), ("Windows".to_string(), OsArt::Windows));
}

#[test]
fn macos_name_from_license() {
    let text = "{\\rtf1\n\\b SOFTWARE LICENSE AGREEMENT FOR macOS Sonoma\\\n more\n";
    assert_eq!(macos::os_info(Some(text)), Ok(("MacOS Sonoma".to_string(), OsArt::MacOS)));
    assert_eq!(macos::os_info(Some("nothing\n")), Ok(("MacOS ".to_string(), OsArt::MacOS)));
    assert!(matches!(macos::os_info(None), Err(InfoError::FileRead { .. })));
}

#[test]
fn setup_always_succeeds_off_linux() {
    let mut gate = Gate::new();
    assert_eq!(macos::init(&mut gate), Ok(()));
    assert!(initialized(&gate));
    let mut gate = Gate::new();
    assert_eq!(win::init(&mut gate), Ok(()));
    assert!(initialized(&gate));
}

#[test]
fn windows_memory() {
    assert_eq!(
        win::memory_info(Some((8000, 3000))),
        Ok(Memory { total: 8000, available: 3000, used: 5000 })
    );
    assert_eq!(
        win::memory_info(None),
        Err(InfoError::General("GlobalMemoryStatusEx failed.".to_string()))
    );
}

#[test]
fn macos_memory() {
    assert_eq!(
        macos::memory_info(Some(4096), Some(16384), Some(2)),
        Ok(Memory { total: 16384, available: 8192, used: 8192 })
    );
    assert_eq!(
        macos::memory_info(None, Some(1), Some(1)),
        Err(InfoError::Sysctl { name: "hw.pagesize".to_string() })
    );
    assert_eq!(
        macos::memory_info(Some(1), None, Some(1)),
        Err(InfoError::Sysctl { name: "hw.memsize".to_string() })
    );
    assert_eq!(
        macos::memory_info(Some(1), Some(1), None),
        Err(InfoError::General("Failed to get VM stats".to_string()))
    );
}

#[test]
fn macos_board() {
    assert_eq!(macos::model_name("MacBookPro18,3\0\0\0"), "MacBookPro18,3");
    assert_eq!(
        macos::motherboard_info(Some(" Mac14,2\0\0"), None),
        Ok(BaseBoard { model: "Mac14,2".to_string(), vendor: String::new() })
    );
    assert_eq!(
        macos::motherboard_info(Some("Mac14,2"), Some(" MacBook Air (M2, 2022)\n")),
        Ok(BaseBoard { model: "MacBook Air (M2, 2022)".to_string(), vendor: String::new() })
    );
    assert_eq!(
        macos::motherboard_info(None, None),
        Err(InfoError::Sysctl { name: "hw.model".to_string() })
    );
}

#[test]
fn windows_names() {
    assert_eq!(
        win::hostname_info(Ok("DESKTOP-1\0\0\0")),
        Ok(Host { hostname: "DESKTOP-1".to_string() })
    );
    assert_eq!(
        win::hostname_info(Err(10093)),
        Err(InfoError::General("gethostname failed: WSASTARTUP NOT RAN".to_string()))
    );
    assert_eq!(
        win::hostname_info(Err(10014)),
        Err(InfoError::General("gethostname failed: WSAEFAULT".to_string()))
    );
    assert_eq!(
        win::hostname_info(Err(10036)),
        Err(InfoError::General("gethostname failed: IN PROGRESS".to_string()))
    );
    assert_eq!(
        win::hostname_info(Err(1)),
        Err(InfoError::General("gethostname failed".to_string()))
    );
    assert_eq!(win::caller_name(Ok("ann\0\0")), Ok("ann".to_string()));
    assert_eq!(
        win::caller_name(Err(122)),
        Err(InfoError::General("GetUserNameA failed: code 122".to_string()))
    );
}
