use vdovitsa::web::ip_text::{ipv4_to_string, ipv6_to_string};

#[test]
fn ipv4_is_dotted_decimal() {
    assert_eq!(ipv4_to_string(0x0102_0304), "1.2.3.4");
    assert_eq!(ipv4_to_string(0), "0.0.0.0");
    assert_eq!(ipv4_to_string(u32::MAX), "255.255.255.255");
    assert_eq!(ipv4_to_string(0x7f00_0001), "127.0.0.1");
    assert_eq!(ipv4_to_string(0xc0a8_0a64), "192.168.10.100");
    assert_eq!(ipv4_to_string(0x0a09_6363), "10.9.99.99");
}

#[test]
fn ipv6_compresses_the_longest_run_of_zeros() {
    assert_eq!(ipv6_to_string(0), "::");
    assert_eq!(ipv6_to_string(1), "::1");
    assert_eq!(ipv6_to_string(0x2001_0db8_0000_0000_0000_0000_0000_0001), "2001:db8::1");
    assert_eq!(ipv6_to_string(0x0001_0000_0000_0002_0000_0000_0000_0003), "1:0:0:2::3");
    assert_eq!(ipv6_to_string(0x0001_0002_0003_0004_0005_0006_0000_0000), "1:2:3:4:5:6::");
}

#[test]
fn ipv6_takes_the_first_of_two_equal_runs() {
    assert_eq!(ipv6_to_string(0x0000_0000_0001_0000_0000_0001_0000_0000), "::1:0:0:1:0:0");
    assert_eq!(ipv6_to_string(0x0001_0000_0000_0002_0000_0000_0003_0004), "1::2:0:0:3:4");
}

#[test]
fn ipv6_leaves_a_single_zero_alone() {
    assert_eq!(ipv6_to_string(0x0001_0000_0002_0000_0003_0000_0004_0000), "1:0:2:0:3:0:4:0");
    assert_eq!(ipv6_to_string(0x0001_0002_0003_0004_0005_0006_0007_0008), "1:2:3:4:5:6:7:8");
}

#[test]
fn ipv6_is_lower_case_hex_without_leading_zeros() {
    assert_eq!(
        ipv6_to_string(0xff02_0000_0000_0000_0000_0000_abcd_0234),
        "ff02::abcd:234"
    );
    assert_eq!(
        ipv6_to_string(0xffff_ffff_ffff_ffff_ffff_ffff_ffff_ffff),
        "ffff:ffff:ffff:ffff:ffff:ffff:ffff:ffff"
    );
    assert_eq!(ipv6_to_string(0x0010_0100_1000_000f_00f0_0f00_f000_0a0b), "10:100:1000:f:f0:f00:f000:a0b");
}

#[test]
fn ipv6_writes_a_mapped_ipv4_address_in_dotted_decimal() {
    assert_eq!(ipv6_to_string(0xffff_0102_0304), "::ffff:1.2.3.4");
    assert_eq!(ipv6_to_string(0xffff_0000_0000), "::ffff:0.0.0.0");
    assert_eq!(ipv6_to_string(0x0102_0304), "::102:304");
    assert_eq!(ipv6_to_string(0x1_0000_ffff_0102_0304), "::1:0:ffff:102:304");
}
