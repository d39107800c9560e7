use rinfo::cpu::{cpu_clock, cpu_count, cpu_info, cpu_name, cpu_uptime};
use rinfo::error::InfoError;

const CPUINFO: &str = "processor\t: 0\nvendor_id\t: GenuineIntel\nmodel name\t: Intel(R) Core(TM) i5 CPU @ 2.40GHz\ncpu MHz\t\t: 2400.123\ncore id\t\t: 0\n\nprocessor\t: 1\nvendor_id\t: GenuineIntel\nmodel name\t: Intel(R) Core(TM) i5 CPU @ 2.40GHz\ncpu MHz\t\t: 2399.999\ncore id\t\t: 0\n";

#[test]
fn two_processors_sharing_a_core() {
    assert_eq!(cpu_count(CPUINFO), (1, 2));
}

#[test]
fn distinct_core_ids_are_counted_once_each() {
    let text = "processor : 0\ncore id : 0\nprocessor : 1\ncore id : 1\nprocessor : 2\ncore id : 0\nprocessor : 3\ncore id : 1\n";
    assert_eq!(cpu_count(text), (2, 4));
    assert_eq!(cpu_count(""), (0, 0));
}

#[test]
fn threads_cover_cores_with_one_core_line_per_processor() {
    let text = "processor : 0\ncore id : 3\nprocessor : 1\ncore id : 5\nprocessor : 2\n";
    let (cores, threads) = cpu_count(text);
    assert!(threads >= cores);
    assert_eq!((cores, threads), (2, 3));
}

#[test]
fn model_name_is_trimmed() {
    assert_eq!(cpu_name(CPUINFO).unwrap(), "Intel(R) Core(TM) i5 CPU @ 2.40GHz");
}

#[test]
fn missing_model_name() {
    assert_eq!(
        cpu_name("processor : 0\n"),
        Err(InfoError::General("Couldn't find line that starts with 'model name'".to_string()))
    );
    assert_eq!(
        cpu_name("model name without colon\n"),
        Err(InfoError::General("Invalid model name format".to_string()))
    );
}

#[test]
fn clock_from_first_clock_line() {
    assert_eq!(cpu_clock(CPUINFO), Ok(2_400_123));
    assert_eq!(cpu_clock("cpu MHz:800\n"), Ok(800_000));
    assert_eq!(cpu_clock("cpu MHz : 1.5\n"), Ok(1_500));
}

#[test]
fn clock_lines_must_match_their_form() {
    assert_eq!(cpu_clock("cpu MHz : fast\ncpu MHz : 3000.5\n"), Ok(3_000_500));
    assert_eq!(
        cpu_clock("cpu MHz : 12.\n"),
        Err(InfoError::General("Couldn't find CPU clock speed in CPU info".to_string()))
    );
    assert_eq!(
        cpu_clock("processor : 0\n"),
        Err(InfoError::General("Couldn't find CPU clock speed in CPU info".to_string()))
    );
}

#[test]
fn uptime_in_milliseconds() {
    assert_eq!(cpu_uptime("12345.67 54321.00\n"), 12_345_670);
    assert_eq!(cpu_uptime("5 1"), 5_000);
    assert_eq!(cpu_uptime("0.0015 1"), 1);
}

#[test]
fn unreadable_uptime_is_zero() {
    assert_eq!(cpu_uptime(""), 0);
    assert_eq!(cpu_uptime("soon"), 0);
}

#[test]
fn whole_cpu_read() {
    let cpu = cpu_info(Some(CPUINFO), Some("100.5 20.0\n")).unwrap();
    assert_eq!(cpu.name, "Intel(R) Core(TM) i5 CPU @ 2.40GHz");
    assert_eq!(cpu.cores, 1);
    assert_eq!(cpu.threads, 2);
    assert_eq!(cpu.clock_rate_khz, 2_400_123);
    assert_eq!(cpu.uptime, 100_500);
}

#[test]
fn missing_cpuinfo_is_a_read_error() {
    assert_eq!(
        cpu_info(None, Some("1.0 1.0")),
        Err(InfoError::FileRead { path: "/proc/cpuinfo".to_string() })
    );
    assert_eq!(
        cpu_info(Some(CPUINFO), None),
        Err(InfoError::FileRead { path: "/proc/uptime".to_string() })
    );
}

#[test]
fn uptime_reads_every_float_form() {
    assert_eq!(cpu_uptime("5. 1"), 5_000);
    assert_eq!(cpu_uptime(".5 1"), 500);
    assert_eq!(cpu_uptime("+5 1"), 5_000);
    assert_eq!(cpu_uptime("1e3 1"), 1_000_000);
    assert_eq!(cpu_uptime("1.5E-1 1"), 150);
    assert_eq!(cpu_uptime("1.e2"), 100_000);
    assert_eq!(cpu_uptime("2.5e+1"), 25_000);
    assert_eq!(cpu_uptime("123456e-9"), 0);
    assert_eq!(cpu_uptime("123456e-5"), 1_234);
}

#[test]
fn uptime_special_and_out_of_range_values() {
    assert_eq!(cpu_uptime("inf 1"), u64::MAX);
    assert_eq!(cpu_uptime("+Infinity 1"), u64::MAX);
    assert_eq!(cpu_uptime("NaN 1"), 0);
    assert_eq!(cpu_uptime("-inf 1"), 0);
    assert_eq!(cpu_uptime("-3.5 1"), 0);
    assert_eq!(cpu_uptime("1e400"), u64::MAX);
    assert_eq!(cpu_uptime("1e-400"), 0);
    assert_eq!(cpu_uptime("0e999999999999999999999999999999999999"), 0);
    assert_eq!(cpu_uptime("7e999999999999999999999999999999999999"), u64::MAX);
    assert_eq!(cpu_uptime("7e-999999999999999999999999999999999999"), 0);
    assert_eq!(cpu_uptime("99999999999999999999 1"), u64::MAX);
}

#[test]
fn uptime_rejects_what_is_no_number() {
    for t in [".", "e5", "1e", "1e+", "1..2", "1.2.3", "0x10", "5s", "+-5", "infinite"] {
        assert_eq!(cpu_uptime(t), 0, "{t}");
    }
}

#[test]
fn cpu_info_with_uptime_written_with_trailing_point() {
    let cpu = cpu_info(Some(CPUINFO), Some("5. 1")).unwrap();
    assert_eq!(cpu.uptime, 5_000);
}
