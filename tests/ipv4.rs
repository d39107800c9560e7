use rinfo::board::ip_info;
use rinfo::ipv4::{int_to_ipv4, ipv4_to_int};

const IP1: &str = "8.8.8.8";
const IP2: &str = "192.168.1.19";

#[test]
fn test_ipv4_to_int() {
    assert_eq!(134744072, ipv4_to_int(IP1));
    assert_eq!(3232235795, ipv4_to_int(IP2));
}

#[test]
fn test_int_to_ipv4() {
    assert_eq!(int_to_ipv4(134744072), IP1.to_string());
    assert_eq!(int_to_ipv4(3232235795), IP2.to_string());
}

#[test]
fn dotted_text_round_trips() {
    for s in ["0.0.0.0", "255.255.255.255", "1.1.1.1", "10.0.200.7", "127.0.0.1"] {
        assert_eq!(int_to_ipv4(ipv4_to_int(s)), s);
    }
}

#[test]
fn value_round_trips() {
    for i in [0u32, 1, 255, 256, 0x0101_0101, 0xC0A8_0113, u32::MAX] {
        assert_eq!(ipv4_to_int(&int_to_ipv4(i)), i);
    }
}

#[test]
fn octets_are_trimmed_and_missing_ones_are_zero() {
    assert_eq!(ipv4_to_int(" 10 . 0 .0. 1"), 0x0A00_0001);
    assert_eq!(ipv4_to_int("1.2"), 0x0102_0000);
    assert_eq!(ipv4_to_int(""), 0);
    assert_eq!(ipv4_to_int("1..2.3.4"), 0x0102_0304);
}

#[test]
fn unreadable_octet_counts_as_zero() {
    assert_eq!(ipv4_to_int("1.x.3.4"), 0x0100_0304);
    assert_eq!(ipv4_to_int("1.2.3.99999999999"), 0x0102_0300);
}

#[test]
fn first_octet_is_most_significant() {
    assert_eq!(int_to_ipv4(0x0100_0000), "1.0.0.0");
    assert_eq!(int_to_ipv4(1), "0.0.0.1");
}

#[test]
fn net_fact_holds_dotted_address() {
    let n = ip_info(0xC0A8_0113);
    assert_eq!(n.local_ip, "192.168.1.19");
    assert_eq!(n.render(), "LAN: 192.168.1.19 (IPV4)");
}
