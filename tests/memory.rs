use rinfo::error::InfoError;
use rinfo::memory::{memory_from_totals, memory_info};
use rinfo::model::Memory;

#[test]
fn meminfo_numbers_are_taken_as_written() {
    let m = memory_info(Some("MemTotal: 1000 kB\nMemAvailable: 400 kB\n")).unwrap();
    assert_eq!(m, Memory { total: 1000, available: 400, used: 600 });
}

#[test]
fn meminfo_with_other_lines() {
    let text = "MemTotal:       16314204 kB\nMemFree:         1024000 kB\nMemAvailable:   8157102 kB\nBuffers:          300000 kB\n";
    let m = memory_info(Some(text)).unwrap();
    assert_eq!(m.total, 16314204);
    assert_eq!(m.available, 8157102);
    assert_eq!(m.used, 16314204 - 8157102);
}

#[test]
fn used_is_total_minus_available() {
    for (t, a) in [(0u64, 0u64), (10, 10), (u64::MAX, 1), (5, 0)] {
        let m = memory_from_totals(t, a).unwrap();
        assert_eq!(m.used, t - a);
        assert!(m.available <= m.total);
    }
}

#[test]
fn more_available_than_total_is_an_error() {
    assert_eq!(
        memory_from_totals(1, 2),
        Err(InfoError::General("available memory exceeds total memory".to_string()))
    );
    assert!(memory_info(Some("MemTotal: 1 kB\nMemAvailable: 2 kB\n")).is_err());
}

#[test]
fn unreadable_meminfo() {
    assert_eq!(
        memory_info(None),
        Err(InfoError::FileRead { path: "/proc/meminfo".to_string() })
    );
}

#[test]
fn missing_total_line() {
    assert_eq!(
        memory_info(Some("MemAvailable: 400 kB\n")),
        Err(InfoError::General("Couldn't find line that starts with 'MemTotal'".to_string()))
    );
}

#[test]
fn available_line_must_follow_total_line() {
    assert_eq!(
        memory_info(Some("MemAvailable: 400 kB\nMemTotal: 1000 kB\n")),
        Err(InfoError::General("Couldn't find line that starts with 'MemAvailable'".to_string()))
    );
}

#[test]
fn unparsable_value() {
    assert_eq!(
        memory_info(Some("MemTotal: lots kB\nMemAvailable: 400 kB\n")),
        Err(InfoError::FileParseError {
            path: "/proc/meminfo".to_string(),
            reason: "invalid digit found in string".to_string(),
        })
    );
    assert_eq!(
        memory_info(Some("MemTotal: 1000 kB\nMemAvailable:\n")),
        Err(InfoError::FileParseError {
            path: "/proc/meminfo".to_string(),
            reason: "cannot parse integer from empty string".to_string(),
        })
    );
    assert_eq!(
        memory_info(Some("MemTotal: 99999999999999999999 kB\nMemAvailable: 1 kB\n")),
        Err(InfoError::FileParseError {
            path: "/proc/meminfo".to_string(),
            reason: "number too large to fit in target type".to_string(),
        })
    );
}

#[test]
fn plus_sign_is_accepted() {
    let m = memory_info(Some("MemTotal: +1000 kB\nMemAvailable: 400 kB\n")).unwrap();
    assert_eq!(m.total, 1000);
    assert_eq!(
        memory_info(Some("MemTotal: + kB\nMemAvailable: 400 kB\n")),
        Err(InfoError::FileParseError {
            path: "/proc/meminfo".to_string(),
            reason: "invalid digit found in string".to_string(),
        })
    );
}
