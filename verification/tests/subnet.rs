use subnet_scan::address::{Family, HostAddress};
use subnet_scan::enumerator::AddressEnumerator;
use subnet_scan::error::ScanError;
use subnet_scan::subnet::Subnet;

fn v4(a: u8, b: u8, c: u8, d: u8) -> HostAddress {
    HostAddress::v4(u32::from_be_bytes([a, b, c, d]))
}

fn collect(mut e: AddressEnumerator) -> Vec<HostAddress> {
    let mut out = Vec::new();
    while let Some(h) = e.next_host() {
        out.push(h);
    }
    out
}

#[test]
fn parse_reads_address_family_and_prefix() {
    let s = Subnet::parse("192.168.1.77/24").unwrap();
    assert_eq!(s.family(), Family::V4);
    assert_eq!(s.addr(), v4(192, 168, 1, 77));
    assert_eq!(s.prefix_len(), 24);
    let s = Subnet::parse("fd00::1/64").unwrap();
    assert_eq!(s.family(), Family::V6);
    assert_eq!(s.addr(), HostAddress::v6(0xfd00_0000_0000_0000_0000_0000_0000_0001));
    assert_eq!(s.prefix_len(), 64);
}

#[test]
fn parse_rejects_malformed_subnets() {
    for text in [
        "",
        "10.0.0.0",
        "10.0.0.0/",
        "10.0.0.0/33",
        "10.0.0/24",
        "256.0.0.0/8",
        "10.0.0.0/24 ",
        "fd00::/129",
        "not a subnet",
        "/24",
    ] {
        assert_eq!(Subnet::parse(text), Err(ScanError::InvalidSubnet), "{:?}", text);
        assert!(matches!(AddressEnumerator::parse(text), Err(ScanError::InvalidSubnet)));
    }
}

#[test]
fn new_checks_prefix_and_address_against_the_family() {
    assert!(Subnet::new(Family::V4, 0x0a00_0000, 32).is_ok());
    assert_eq!(Subnet::new(Family::V4, 0x0a00_0000, 33), Err(ScanError::InvalidSubnet));
    assert_eq!(Subnet::new(Family::V4, 1 << 32, 8), Err(ScanError::InvalidSubnet));
    assert!(Subnet::new(Family::V6, u128::MAX, 128).is_ok());
    assert_eq!(Subnet::new(Family::V6, 0, 129), Err(ScanError::InvalidSubnet));
}

#[test]
fn network_and_broadcast_clear_and_set_the_host_bits() {
    let s = Subnet::parse("172.16.123.123/16").unwrap();
    assert_eq!(s.network(), v4(172, 16, 0, 0));
    assert_eq!(s.broadcast(), v4(172, 16, 255, 255));
    assert_eq!(s.host_mask(), 0xffff);
    let s = Subnet::parse("172.16.1.9/22").unwrap();
    assert_eq!(s.network(), v4(172, 16, 0, 0));
    assert_eq!(s.broadcast(), v4(172, 16, 3, 255));
    let s = Subnet::parse("1.2.3.4/0").unwrap();
    assert_eq!(s.network(), v4(0, 0, 0, 0));
    assert_eq!(s.broadcast(), v4(255, 255, 255, 255));
    let s = Subnet::parse("1.2.3.4/32").unwrap();
    assert_eq!(s.network(), v4(1, 2, 3, 4));
    assert_eq!(s.broadcast(), v4(1, 2, 3, 4));
    assert_eq!(s.host_mask(), 0);
    let s = Subnet::parse("fd00::abcd/112").unwrap();
    assert_eq!(s.network(), HostAddress::v6(0xfd00 << 112));
    assert_eq!(s.broadcast(), HostAddress::v6((0xfd00 << 112) | 0xffff));
    let s = Subnet::parse("fd00::abcd/0").unwrap();
    assert_eq!(s.network(), HostAddress::v6(0));
    assert_eq!(s.broadcast(), HostAddress::v6(u128::MAX));
    assert_eq!(s.host_mask(), u128::MAX);
}

#[test]
fn slash_30_has_two_hosts_between_the_edges() {
    let s = Subnet::parse("10.0.0.0/30").unwrap();
    assert!(s.trims_edges());
    assert_eq!(s.host_count(), Some(2));
    assert_eq!(s.first_host(), v4(10, 0, 0, 1));
    assert_eq!(s.last_host(), v4(10, 0, 0, 2));
    let e = AddressEnumerator::new(&s);
    assert_eq!(e.remaining(), Some(2));
    assert_eq!(collect(e), vec![v4(10, 0, 0, 1), v4(10, 0, 0, 2)]);
}

#[test]
fn slash_31_keeps_both_addresses() {
    let s = Subnet::parse("10.0.0.0/31").unwrap();
    assert!(!s.trims_edges());
    assert_eq!(s.host_count(), Some(2));
    assert_eq!(collect(AddressEnumerator::new(&s)), vec![v4(10, 0, 0, 0), v4(10, 0, 0, 1)]);
}

#[test]
fn slash_32_is_a_single_host() {
    let s = Subnet::parse("10.1.2.3/32").unwrap();
    assert_eq!(s.host_count(), Some(1));
    assert_eq!(collect(AddressEnumerator::new(&s)), vec![v4(10, 1, 2, 3)]);
}

#[test]
fn ipv6_blocks_keep_every_address() {
    let e = AddressEnumerator::parse("fd00::/126").unwrap();
    assert_eq!(e.remaining(), Some(4));
    let base: u128 = 0xfd00 << 112;
    assert_eq!(
        collect(e),
        vec![
            HostAddress::v6(base),
            HostAddress::v6(base + 1),
            HostAddress::v6(base + 2),
            HostAddress::v6(base + 3),
        ]
    );
}

#[test]
fn host_count_follows_the_usable_host_formula() {
    for p in 0..=30u8 {
        let s = Subnet::new(Family::V4, 0xc0a8_0101, p).unwrap();
        assert_eq!(s.host_count(), Some((1u128 << (32 - p)) - 2));
        assert_eq!(AddressEnumerator::new(&s).remaining(), s.host_count());
    }
    assert_eq!(Subnet::new(Family::V4, 0xc0a8_0101, 31).unwrap().host_count(), Some(2));
    assert_eq!(Subnet::new(Family::V4, 0xc0a8_0101, 32).unwrap().host_count(), Some(1));
    for p in 1..=128u8 {
        let s = Subnet::new(Family::V6, 0xfd00 << 112, p).unwrap();
        assert_eq!(s.host_count(), Some(1u128 << (128 - p)));
    }
}

#[test]
fn the_whole_ipv6_space_is_counted_as_too_large() {
    let s = Subnet::parse("::/0").unwrap();
    assert_eq!(s.host_count(), None);
    let mut e = AddressEnumerator::new(&s);
    assert_eq!(e.remaining(), None);
    assert_eq!(e.next_host(), Some(HostAddress::v6(0)));
    assert_eq!(e.remaining(), Some(u128::MAX));
}

#[test]
fn hosts_agree_with_ipnet() {
    for text in [
        "10.0.0.0/30",
        "10.0.0.0/31",
        "10.0.0.7/32",
        "192.168.1.77/24",
        "172.16.5.5/20",
        "127.0.0.0/30",
    ] {
        let net: ipnet::Ipv4Net = text.parse().unwrap();
        let expected: Vec<HostAddress> =
            net.hosts().map(|a| HostAddress::v4(u32::from(a))).collect();
        let e = AddressEnumerator::parse(text).unwrap();
        assert_eq!(e.remaining(), Some(expected.len() as u128), "{}", text);
        assert_eq!(collect(e), expected, "{}", text);
    }
    for text in ["fd00::/120", "fd00::17/127", "::1/128"] {
        let net: ipnet::Ipv6Net = text.parse().unwrap();
        let expected: Vec<HostAddress> =
            net.hosts().map(|a| HostAddress::v6(u128::from(a))).collect();
        let e = AddressEnumerator::parse(text).unwrap();
        assert_eq!(e.remaining(), Some(expected.len() as u128), "{}", text);
        assert_eq!(collect(e), expected, "{}", text);
    }
}

#[test]
fn enumerator_is_lazy_and_restartable() {
    let s = Subnet::parse("10.0.0.0/8").unwrap();
    let mut e = AddressEnumerator::new(&s);
    assert_eq!(e.remaining(), Some(16_777_214));
    assert_eq!(e.next_host(), Some(v4(10, 0, 0, 1)));
    assert_eq!(e.next_host(), Some(v4(10, 0, 0, 2)));
    assert_eq!(e.remaining(), Some(16_777_212));
    let mut again = AddressEnumerator::new(&s);
    assert_eq!(again.next_host(), Some(v4(10, 0, 0, 1)));
}

#[test]
fn exhausted_enumerator_stays_exhausted() {
    let mut e = AddressEnumerator::parse("10.0.0.0/30").unwrap();
    assert!(!e.is_exhausted());
    assert!(e.next_host().is_some());
    assert!(e.next_host().is_some());
    assert!(e.is_exhausted());
    assert_eq!(e.next_host(), None);
    assert_eq!(e.next_host(), None);
    assert_eq!(e.remaining(), Some(0));
}

#[test]
fn last_address_of_the_family_does_not_wrap() {
    let mut e = AddressEnumerator::parse("255.255.255.255/32").unwrap();
    assert_eq!(e.next_host(), Some(v4(255, 255, 255, 255)));
    assert_eq!(e.next_host(), None);
    let mut e = AddressEnumerator::parse("ffff:ffff:ffff:ffff:ffff:ffff:ffff:ffff/128").unwrap();
    assert_eq!(e.next_host(), Some(HostAddress::v6(u128::MAX)));
    assert_eq!(e.next_host(), None);
}
