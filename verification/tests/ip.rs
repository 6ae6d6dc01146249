use sshd_command::ip::{IpAddress, SocketAddress};

#[test]
fn ipv4_is_read_as_its_bits() {
    assert_eq!(IpAddress::parse("127.0.0.1"), Some(IpAddress::V4(0x7f00_0001)));
    assert_eq!(IpAddress::parse("0.0.0.0"), Some(IpAddress::V4(0)));
    assert_eq!(IpAddress::parse("255.255.255.255"), Some(IpAddress::V4(0xffff_ffff)));
    assert_eq!(IpAddress::parse("192.168.1.20"), Some(IpAddress::V4(0xc0a8_0114)));
}

#[test]
fn ipv4_with_a_wrong_part_is_refused() {
    assert_eq!(IpAddress::parse(""), None);
    assert_eq!(IpAddress::parse("1.2.3"), None);
    assert_eq!(IpAddress::parse("1.2.3.4.5"), None);
    assert_eq!(IpAddress::parse("256.1.1.1"), None);
    assert_eq!(IpAddress::parse("1.2.3.1000"), None);
    assert_eq!(IpAddress::parse("01.2.3.4"), None);
    assert_eq!(IpAddress::parse("1.2.3.04"), None);
    assert_eq!(IpAddress::parse("1.2.3.4 "), None);
    assert_eq!(IpAddress::parse(" 1.2.3.4"), None);
    assert_eq!(IpAddress::parse("1..3.4"), None);
    assert_eq!(IpAddress::parse("1.2.3.4:22"), None);
    assert_eq!(IpAddress::parse("a.b.c.d"), None);
    assert_eq!(IpAddress::parse("+1.2.3.4"), None);
}

#[test]
fn ipv6_is_read_as_its_bits() {
    assert_eq!(IpAddress::parse("::1"), Some(IpAddress::V6(1)));
    assert_eq!(IpAddress::parse("::"), Some(IpAddress::V6(0)));
    assert_eq!(
        IpAddress::parse("1:2:3:4:5:6:7:8"),
        Some(IpAddress::V6(0x0001_0002_0003_0004_0005_0006_0007_0008))
    );
    assert_eq!(
        IpAddress::parse("1::"),
        Some(IpAddress::V6(0x0001_0000_0000_0000_0000_0000_0000_0000))
    );
    assert_eq!(
        IpAddress::parse("fe80::AbCd:1"),
        Some(IpAddress::V6(0xfe80_0000_0000_0000_0000_0000_abcd_0001))
    );
    assert_eq!(
        IpAddress::parse("1:2:3:4:5:6:7::"),
        Some(IpAddress::V6(0x0001_0002_0003_0004_0005_0006_0007_0000))
    );
    assert_eq!(
        IpAddress::parse("::2:3:4:5:6:7:8"),
        Some(IpAddress::V6(0x0000_0002_0003_0004_0005_0006_0007_0008))
    );
    assert_eq!(
        IpAddress::parse("2001:db8::ff00:42:8329"),
        Some(IpAddress::V6(0x2001_0db8_0000_0000_0000_ff00_0042_8329))
    );
}

#[test]
fn ipv6_may_end_in_an_ipv4() {
    assert_eq!(
        IpAddress::parse("::ffff:1.2.3.4"),
        Some(IpAddress::V6(0xffff_0102_0304))
    );
    assert_eq!(IpAddress::parse("::1.2.3.4"), Some(IpAddress::V6(0x0102_0304)));
    assert_eq!(
        IpAddress::parse("1:2:3:4:5:6:1.2.3.4"),
        Some(IpAddress::V6(0x0001_0002_0003_0004_0005_0006_0102_0304))
    );
    assert_eq!(
        IpAddress::parse("64:ff9b::192.0.2.33"),
        Some(IpAddress::V6(0x0064_ff9b_0000_0000_0000_0000_c000_0221))
    );
    assert_eq!(IpAddress::parse("1:2:3:4:5:6:7:1.2.3.4"), None);
    assert_eq!(IpAddress::parse("1.2.3.4::"), None);
    assert_eq!(IpAddress::parse("::1.2.3.4:5"), None);
    assert_eq!(IpAddress::parse("1:2.3.4.5::"), None);
}

#[test]
fn ipv6_with_a_wrong_part_is_refused() {
    assert_eq!(IpAddress::parse(":"), None);
    assert_eq!(IpAddress::parse(":::"), None);
    assert_eq!(IpAddress::parse("1:2:3:4:5:6:7"), None);
    assert_eq!(IpAddress::parse("1:2:3:4:5:6:7:8:9"), None);
    assert_eq!(IpAddress::parse("::1:2:3:4:5:6:7:8"), None);
    assert_eq!(IpAddress::parse("1:2:3:4:5:6:7:8::"), None);
    assert_eq!(IpAddress::parse("12345::"), None);
    assert_eq!(IpAddress::parse("::12345"), None);
    assert_eq!(IpAddress::parse("1::2::3"), None);
    assert_eq!(IpAddress::parse("1:2:3:4:5:6:7:"), None);
    assert_eq!(IpAddress::parse(":1:2:3:4:5:6:7"), None);
    assert_eq!(IpAddress::parse("fe80::1%eth0"), None);
    assert_eq!(IpAddress::parse("g::1"), None);
    assert_eq!(IpAddress::parse("[::1]"), None);
    assert_eq!(IpAddress::parse("::1 22 ::1 41644"), None);
}

#[test]
fn socket_address_holds_address_and_port() {
    let address = SocketAddress::new(IpAddress::V4(1), 22);
    assert_eq!(address.ip, IpAddress::V4(1));
    assert_eq!(address.port, 22);
}
