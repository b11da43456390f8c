use netsim_link::ipv4_address::{IPV4_FORMAT_ERROR, IPV4_NUMBER_ERROR};
use netsim_link::ipv6_address::{IPV6_FORMAT_ERROR, IPV6_NUMBER_ERROR, IPV6_SEGMENT_ERROR};
use netsim_link::mac_address::{MAC_FORMAT_ERROR, MAC_LENGTH_ERROR};
use netsim_link::{IPv4Address, IPv6Address, MacAddress};

#[test]
fn mac_parses_colon_hex() {
    let a = MacAddress::from_string("00:1a:2B:3c:4D:ff").unwrap();
    assert_eq!(a.to_array(), [0x00, 0x1a, 0x2b, 0x3c, 0x4d, 0xff]);
}

#[test]
fn mac_text_is_upper_case_pairs() {
    let a = MacAddress::from_array([0x00, 0x1a, 0x2b, 0x3c, 0x4d, 0xff]);
    assert_eq!(a.to_text(), "00:1A:2B:3C:4D:FF");
}

#[test]
fn mac_round_trip_on_values() {
    for bytes in [[0u8; 6], [0xff; 6], [1, 2, 3, 4, 5, 6], [0x02, 0x42, 0xac, 0x11, 0x00, 0x02]] {
        let a = MacAddress::from_array(bytes);
        assert_eq!(MacAddress::from_string(&a.to_text()), Ok(a));
    }
}

#[test]
fn mac_wrong_group_count() {
    assert_eq!(MacAddress::from_string("01:02:03:04:05"), Err(MAC_LENGTH_ERROR));
    assert_eq!(MacAddress::from_string("01:02:03:04:05:06:07"), Err(MAC_LENGTH_ERROR));
}

#[test]
fn mac_bad_group() {
    assert_eq!(MacAddress::from_string("01:02:03:04:05:zz"), Err(MAC_FORMAT_ERROR));
    assert_eq!(MacAddress::from_string("01:02:03:04:05:100"), Err(MAC_FORMAT_ERROR));
    assert_eq!(MacAddress::from_string(""), Err(MAC_FORMAT_ERROR));
    assert_eq!(MacAddress::from_string("01:02::04:05:06"), Err(MAC_FORMAT_ERROR));
}

#[test]
fn mac_bad_group_comes_before_count() {
    assert_eq!(MacAddress::from_string("zz:01"), Err(MAC_FORMAT_ERROR));
}

#[test]
fn mac_groups_must_be_two_digits() {
    assert_eq!(MacAddress::from_string("0:1:2:3:4:5"), Err(MAC_FORMAT_ERROR));
    assert_eq!(MacAddress::from_string("000A:01:02:03:04:05"), Err(MAC_FORMAT_ERROR));
    assert_eq!(MacAddress::from_string("01:02:03:04:05:+A"), Err(MAC_FORMAT_ERROR));
    assert_eq!(MacAddress::from_string("+A:02:03:04:05:06"), Err(MAC_FORMAT_ERROR));
}

#[test]
fn mac_local_from_random() {
    let a = MacAddress::local_from_random([0x00, 0x11, 0x22, 0x33, 0x44, 0x55]);
    assert_eq!(a.to_array(), [0x02, 0x11, 0x22, 0x33, 0x44, 0x55]);
    let b = MacAddress::local_from_random([0xff, 1, 2, 3, 4, 5]);
    assert_eq!(b.to_array(), [0xff, 1, 2, 3, 4, 5]);
}

#[test]
fn mac_generated_is_locally_administered() {
    for _ in 0..64 {
        let a = MacAddress::new();
        assert_eq!(a.to_array()[0] & 0x02, 0x02);
    }
}

#[test]
fn mac_reserved_constants() {
    assert_eq!(MacAddress::get_broadcast_mac_addr().to_array(), [0xff; 6]);
    assert_eq!(MacAddress::get_arp_target_mac_addr().to_array(), [0x00; 6]);
}

#[test]
fn mac_slice_holds_bytes() {
    let a = MacAddress::from_array([9, 8, 7, 6, 5, 4]);
    assert_eq!(a.as_slice(), &[9, 8, 7, 6, 5, 4]);
}

#[test]
fn ipv4_parses_dotted_decimal() {
    let a = IPv4Address::from_string("192.168.0.1").unwrap();
    assert_eq!(a.to_array(), [192, 168, 0, 1]);
    assert_eq!(a.as_slice(), &[192, 168, 0, 1]);
}

#[test]
fn ipv4_text() {
    assert_eq!(IPv4Address::from_array([10, 0, 255, 7]).to_text(), "10.0.255.7");
}

#[test]
fn ipv4_round_trip_on_values() {
    for bytes in [[0u8; 4], [255; 4], [192, 168, 0, 1], [8, 80, 100, 9]] {
        let a = IPv4Address::from_array(bytes);
        assert_eq!(IPv4Address::from_string(&a.to_text()), Ok(a));
    }
}

#[test]
fn ipv4_wrong_group_count() {
    assert_eq!(IPv4Address::from_string("1.2.3"), Err(IPV4_FORMAT_ERROR));
    assert_eq!(IPv4Address::from_string("1.2.3.4.5"), Err(IPV4_FORMAT_ERROR));
    assert_eq!(IPv4Address::from_string("1.2.x.4.5"), Err(IPV4_FORMAT_ERROR));
}

#[test]
fn ipv4_bad_number() {
    assert_eq!(IPv4Address::from_string("1.2.3.256"), Err(IPV4_NUMBER_ERROR));
    assert_eq!(IPv4Address::from_string("1.2.a.4"), Err(IPV4_NUMBER_ERROR));
    assert_eq!(IPv4Address::from_string("1..3.4"), Err(IPV4_NUMBER_ERROR));
    assert_eq!(IPv4Address::from_string("1.2.-3.4"), Err(IPV4_NUMBER_ERROR));
    assert_eq!(IPv4Address::from_string("+1.2.3.4"), Err(IPV4_NUMBER_ERROR));
    assert_eq!(IPv4Address::from_string("1.2.3. 4"), Err(IPV4_NUMBER_ERROR));
}

#[test]
fn ipv4_from_host() {
    assert_eq!(IPv4Address::from_host(77).to_array(), [192, 168, 0, 77]);
}

#[test]
fn ipv4_generated_is_private_host() {
    for _ in 0..64 {
        let a = IPv4Address::new().to_array();
        assert_eq!(&a[..3], &[192, 168, 0]);
        assert!(a[3] >= 1 && a[3] <= 254);
    }
}

#[test]
fn ipv6_parses_groups() {
    let a = IPv6Address::from_string("2001:db8:0:0:0:0:0:1").unwrap();
    let mut want = [0u8; 16];
    want[0] = 0x20;
    want[1] = 0x01;
    want[2] = 0x0d;
    want[3] = 0xb8;
    want[15] = 1;
    assert_eq!(a.to_array(), want);
}

#[test]
fn ipv6_text_with_separators() {
    let mut bytes = [0u8; 16];
    for i in 0..16 {
        bytes[i] = (i as u8) * 17;
    }
    let a = IPv6Address::from_array(bytes);
    assert_eq!(a.to_text(), "0011:2233:4455:6677:8899:AABB:CCDD:EEFF");
    assert_eq!(a.to_string_with_separator('-'), "0011-2233-4455-6677-8899-AABB-CCDD-EEFF");
}

#[test]
fn ipv6_round_trip_on_values() {
    let mut bytes = [0u8; 16];
    for i in 0..16 {
        bytes[i] = 255 - (i as u8) * 13;
    }
    for b in [[0u8; 16], [0xff; 16], bytes] {
        let a = IPv6Address::from_array(b);
        assert_eq!(IPv6Address::from_string(&a.to_text()), Ok(a));
    }
}

#[test]
fn ipv6_wrong_group_count() {
    assert_eq!(IPv6Address::from_string("2001:db8::1"), Err(IPV6_FORMAT_ERROR));
    assert_eq!(IPv6Address::from_string("1:2:3:4:5:6:7:8:9"), Err(IPV6_FORMAT_ERROR));
}

#[test]
fn ipv6_long_segment() {
    assert_eq!(IPv6Address::from_string("1:2:3:4:5:6:7:12345"), Err(IPV6_SEGMENT_ERROR));
    assert_eq!(IPv6Address::from_string("1:2:3:4:5:6:7:éé1"), Err(IPV6_SEGMENT_ERROR));
}

#[test]
fn ipv6_bad_number() {
    assert_eq!(IPv6Address::from_string("1:2:3:4:5:6:7:g"), Err(IPV6_NUMBER_ERROR));
    assert_eq!(IPv6Address::from_string("1:2:3:4:5:6::8"), Err(IPV6_NUMBER_ERROR));
    assert_eq!(IPv6Address::from_string("1:2:3:4:5:6:7:é"), Err(IPV6_NUMBER_ERROR));
    assert_eq!(IPv6Address::from_string("+FFF:2:3:4:5:6:7:8"), Err(IPV6_NUMBER_ERROR));
}

#[test]
fn ipv6_from_random_suffix() {
    let a = IPv6Address::from_random_suffix([1, 2, 3, 4, 5, 6, 7, 8, 9, 10, 11, 12]);
    assert_eq!(
        a.to_array(),
        [0x20, 0x01, 0x0d, 0xb8, 1, 2, 3, 4, 5, 6, 7, 8, 9, 10, 11, 12]
    );
}

#[test]
fn ipv6_first_bad_group_decides() {
    assert_eq!(IPv6Address::from_string("x:2:3:4:5:6:7:12345"), Err(IPV6_NUMBER_ERROR));
    assert_eq!(IPv6Address::from_string("12345:2:3:4:5:6:7:x"), Err(IPV6_SEGMENT_ERROR));
}

#[test]
fn ipv6_generated_has_documentation_prefix() {
    let a = IPv6Address::new().to_array();
    assert_eq!(&a[..4], &[0x20, 0x01, 0x0d, 0xb8]);
}

#[test]
fn address_renderings() {
    let m = MacAddress::from_array([0x00, 0x1a, 0x2b, 0x3c, 0x4d, 0xff]);
    assert_eq!(m.to_string(), "#MAC ADDRESS=00:1A:2B:3C:4D:FF");
    assert_eq!(IPv4Address::from_array([10, 0, 255, 7]).to_string(), "#IPv4 address=10.0.255.7");
    let v6 = IPv6Address::from_string("2001:db8:0:0:0:0:0:1").unwrap();
    assert_eq!(v6.to_string(), "#IPv6 address=2001:0DB8:0000:0000:0000:0000:0000:0001");
}
