use ift::address::{AddressBlock, IpAddress, Ipv4Block, Ipv6Block};
use ift::rfc::{Rfc6890, Rfc6890Entry, WithRfc6890, UNMATCHED_DEFAULT};
use ipnet::IpNet;

fn address<T: Into<IpNet>>(ip: T) -> IpAddress {
    match ip.into() {
        IpNet::V4(host) => IpAddress::V4(u32::from(host.addr())),
        IpNet::V6(host) => IpAddress::V6(u128::from(host.addr())),
    }
}

fn host(text: &str) -> IpNet {
    let bits = if text.contains(':') { 128 } else { 32 };
    format!("{}/{}", text, bits).parse().unwrap()
}

fn parsed(text: &str) -> IpAddress {
    address(host(text))
}

fn block(text: &str) -> AddressBlock {
    let net: IpNet = text.parse().unwrap();
    match net {
        IpNet::V4(n) => AddressBlock::V4(Ipv4Block::new(u32::from(n.addr()), n.prefix_len()).unwrap()),
        IpNet::V6(n) => AddressBlock::V6(Ipv6Block::new(u128::from(n.addr()), n.prefix_len()).unwrap()),
    }
}

fn entry(block_text: &str, name: &str, forwardable: bool, global: bool) -> Rfc6890Entry {
    Rfc6890Entry {
        address_block: block(block_text),
        name: name.to_string(),
        rfc: String::new(),
        allocation_date: String::new(),
        termination_date: "N/A".to_string(),
        source: true,
        destination: true,
        forwardable,
        global,
        reserved_by_protocol: false,
    }
}

// check that 192 because there are multiple definitions and
// we want to make sure that it picks the most specific one
#[test]
fn is_forwardable_or_not_192() {
    let all: IpNet = "192.0.0.0/24".parse().unwrap();
    let specific: IpNet = "192.0.0.0/29".parse().unwrap();
    let rfc = WithRfc6890::create();
    for ip_addr in all.hosts() {
        let is_forwardable = specific.contains(&ip_addr);
        assert_eq!(
            is_forwardable,
            rfc.is_forwardable(&address(ip_addr)),
            "failure on ip {}",
            ip_addr
        )
    }
}

#[test]
fn ip_rfc_get_interface_ip_192() {
    let all: IpNet = "192.0.0.0/24".parse().unwrap();
    let specific: IpNet = "192.0.0.0/29".parse().unwrap();
    let rfc = Rfc6890::create();
    for ip_addr in all.hosts() {
        let is_forwardable = specific.contains(&ip_addr);
        assert_eq!(
            is_forwardable,
            rfc.is_forwardable(&address(ip_addr)),
            "failure on ip {}",
            ip_addr
        )
    }
}

#[test]
fn rfc_get_interface_ip_192() {
    let all: IpNet = "192.0.0.0/24".parse().unwrap();
    let specific: IpNet = "192.0.0.0/29".parse().unwrap();
    let rfc = WithRfc6890::create();
    for ip_addr in all.hosts() {
        let is_forwardable = specific.contains(&ip_addr);
        assert_eq!(
            is_forwardable,
            rfc.is_forwardable(&address(ip_addr)),
            "failure on ip {}",
            ip_addr
        )
    }
}

// check 192 for global
#[test]
fn is_global_192() {
    let all: IpNet = "192.88.99.0/24".parse().unwrap();
    let rfc = WithRfc6890::create();
    for ip_addr in all.hosts() {
        assert!(rfc.is_global(&address(ip_addr)), "failure on ip {}", ip_addr)
    }
}

#[test]
fn is_loopback() {
    let ip = host("127.0.0.1").addr();
    let rfc = WithRfc6890::create();
    assert_eq!(false, rfc.is_forwardable(&address(ip)))
}

#[test]
fn forwardable_of_well_known_addresses() {
    let rfc = WithRfc6890::create();
    assert_eq!(true, rfc.is_forwardable(&parsed("192.168.1.100")), "intranet ip");
    assert_eq!(false, rfc.is_forwardable(&parsed("169.254.169.254")), "aws metadata service");
    assert_eq!(true, rfc.is_forwardable(&parsed("172.217.9.142")), "a google ip");
    assert_eq!(true, rfc.is_forwardable(&parsed("2001:4860:4860::8844")), "a google ipv6 address");
    assert_eq!(false, rfc.is_forwardable(&parsed("::1")), "ipv6 loopback");
    assert_eq!(false, rfc.is_forwardable(&parsed("fe80::1")), "link local");
    assert_eq!(true, rfc.is_forwardable(&parsed("fd00::1")), "unique local");
}

#[test]
fn global_of_well_known_addresses() {
    let rfc = WithRfc6890::create();
    assert_eq!(false, rfc.is_global(&parsed("192.168.1.100")), "intranet ip");
    assert_eq!(true, rfc.is_global(&parsed("192.88.99.20")), "internet ip");
    assert_eq!(false, rfc.is_global(&parsed("169.254.169.254")), "aws metadata service");
    assert_eq!(true, rfc.is_global(&parsed("172.217.9.142")), "a google ip");
    assert_eq!(true, rfc.is_global(&parsed("64:ff9b::255.255.255.255")), "ipv6");
    assert_eq!(false, rfc.is_global(&parsed("10.1.2.3")), "private use");
}

#[test]
fn the_boundaries_of_the_192_blocks() {
    let rfc = WithRfc6890::create();
    assert!(rfc.is_forwardable(&IpAddress::v4(192, 0, 0, 0)));
    assert!(rfc.is_forwardable(&IpAddress::v4(192, 0, 0, 7)));
    assert!(!rfc.is_forwardable(&IpAddress::v4(192, 0, 0, 8)));
    assert!(!rfc.is_forwardable(&IpAddress::v4(192, 0, 0, 255)));
    assert_eq!(UNMATCHED_DEFAULT, rfc.is_forwardable(&IpAddress::v4(192, 0, 1, 0)));
    assert_eq!(UNMATCHED_DEFAULT, rfc.is_forwardable(&IpAddress::v4(191, 255, 255, 255)));
}

#[test]
fn unmatched_addresses_get_the_default() {
    assert!(UNMATCHED_DEFAULT);
    let rfc = WithRfc6890::create();
    let public = parsed("8.8.8.8");
    assert!(rfc.find_most_specific(&public).is_none());
    assert_eq!(UNMATCHED_DEFAULT, rfc.is_forwardable(&public));
    assert_eq!(UNMATCHED_DEFAULT, rfc.is_global(&public));
    let none = WithRfc6890 { entries: vec![] };
    assert_eq!(UNMATCHED_DEFAULT, none.is_forwardable(&parsed("127.0.0.1")));
    assert_eq!(UNMATCHED_DEFAULT, none.is_global(&parsed("::1")));
}

#[test]
fn matched_addresses_do_not_get_the_default() {
    let only = WithRfc6890 { entries: vec![entry("10.0.0.0/8", "closed", false, false)] };
    assert_eq!(false, only.is_forwardable(&parsed("10.9.8.7")));
    assert_eq!(false, only.is_global(&parsed("10.9.8.7")));
    assert_eq!(UNMATCHED_DEFAULT, only.is_forwardable(&parsed("11.0.0.0")));
    let open = WithRfc6890 { entries: vec![entry("10.0.0.0/8", "open", true, true)] };
    assert_eq!(true, open.is_forwardable(&parsed("10.9.8.7")));
    assert_eq!(true, open.is_global(&parsed("10.9.8.7")));
}

#[test]
fn the_table_has_all_entries() {
    let rfc = WithRfc6890::create();
    assert_eq!(29, rfc.entries.len());
    assert_eq!(block("0.0.0.0/8"), rfc.entries[0].address_block);
    assert_eq!("\"This host on this network", rfc.entries[0].name);
    assert_eq!("[RFC1122], Section 3.2.1.3", rfc.entries[0].rfc);
    assert_eq!("September 1981", rfc.entries[0].allocation_date);
    assert_eq!("N/A", rfc.entries[0].termination_date);
    assert!(rfc.entries[0].source && rfc.entries[0].reserved_by_protocol);
    assert!(!rfc.entries[0].destination && !rfc.entries[0].forwardable && !rfc.entries[0].global);
    assert_eq!(block("192.0.0.0/29"), rfc.entries[7].address_block);
    assert_eq!("DS-Lite", rfc.entries[7].name);
    assert_eq!(block("64:ff9b::/96"), rfc.entries[18].address_block);
    assert_eq!(block("::ffff:0.0.0.0/96"), rfc.entries[19].address_block);
    assert_eq!(block("2001:10::/28"), rfc.entries[25].address_block);
    assert_eq!("March 2014", rfc.entries[25].termination_date);
    assert_eq!(block("fe80::/10"), rfc.entries[28].address_block);
    assert_eq!("Linked-Scoped Unicast", rfc.entries[28].name);
}

#[test]
fn most_specific_entry_wins_wherever_it_stands() {
    let wide_first = WithRfc6890 {
        entries: vec![entry("192.0.0.0/24", "wide", false, false), entry("192.0.0.0/29", "narrow", true, true)],
    };
    let narrow_first = WithRfc6890 {
        entries: vec![entry("192.0.0.0/29", "narrow", true, true), entry("192.0.0.0/24", "wide", false, false)],
    };
    for table in [&wide_first, &narrow_first] {
        assert_eq!("narrow", table.find_most_specific(&parsed("192.0.0.3")).unwrap().name);
        assert_eq!("wide", table.find_most_specific(&parsed("192.0.0.9")).unwrap().name);
        assert!(table.find_most_specific(&parsed("192.0.1.9")).is_none());
        assert!(table.is_forwardable(&parsed("192.0.0.3")));
        assert!(!table.is_forwardable(&parsed("192.0.0.9")));
    }
}

#[test]
fn nested_three_deep() {
    let table = WithRfc6890 {
        entries: vec![
            entry("10.1.0.0/16", "middle", true, false),
            entry("10.0.0.0/8", "outer", false, false),
            entry("10.1.2.0/24", "inner", false, true),
        ],
    };
    assert_eq!("inner", table.find_most_specific(&parsed("10.1.2.3")).unwrap().name);
    assert_eq!("middle", table.find_most_specific(&parsed("10.1.3.3")).unwrap().name);
    assert_eq!("outer", table.find_most_specific(&parsed("10.2.3.3")).unwrap().name);
}

#[test]
fn of_equal_blocks_the_first_wins() {
    let table = WithRfc6890 {
        entries: vec![
            entry("10.0.0.0/8", "first", true, false),
            entry("10.0.0.0/8", "second", false, true),
            entry("10.200.0.0/8", "third", false, true),
        ],
    };
    let found = table.find_most_specific(&parsed("10.1.2.3")).unwrap();
    assert_eq!("first", found.name);
    assert!(table.is_forwardable(&parsed("10.1.2.3")));
    assert!(!table.is_global(&parsed("10.1.2.3")));
}

#[test]
fn families_do_not_mix() {
    let table = WithRfc6890 {
        entries: vec![entry("0.0.0.0/0", "all v4", false, false), entry("::/0", "all v6", false, true)],
    };
    assert_eq!("all v4", table.find_most_specific(&parsed("1.2.3.4")).unwrap().name);
    assert_eq!("all v6", table.find_most_specific(&parsed("::1.2.3.4")).unwrap().name);
    assert!(!block("0.0.0.0/0").contains_block(&block("::/128")));
    assert!(!block("::/0").contains_addr(&parsed("0.0.0.0")));
}

#[test]
fn containment_agrees_with_ipnet() {
    let blocks = ["10.0.0.0/8", "10.1.0.0/16", "10.1.2.3/24", "0.0.0.0/0", "255.255.255.255/32", "fc00::/7", "fe80::1/10", "::/0", "::1/128"];
    let points = ["10.0.0.0", "10.1.2.3", "10.255.255.255", "11.0.0.0", "9.255.255.255", "255.255.255.255", "0.0.0.0", "fc00::", "fdff:ffff:ffff:ffff:ffff:ffff:ffff:ffff", "fe00::", "fe80::2", "febf::", "fec0::", "::1", "::"];
    for b in blocks {
        let net: IpNet = b.parse().unwrap();
        for p in points {
            let ip = host(p).addr();
            assert_eq!(net.contains(&ip), block(b).contains_addr(&address(ip)), "{} in {}", p, b);
        }
        for other in blocks {
            let inner: IpNet = other.parse().unwrap();
            assert_eq!(net.contains(&inner), block(b).contains_block(&block(other)), "{} in {}", other, b);
        }
    }
}

#[test]
fn blocks_are_made_with_a_prefix_that_fits() {
    assert!(Ipv4Block::new(0, 32).is_some());
    assert!(Ipv4Block::new(0, 33).is_none());
    assert!(Ipv6Block::new(0, 128).is_some());
    assert!(Ipv6Block::new(0, 129).is_none());
    assert!(AddressBlock::v4(10, 0, 0, 0, 40).is_none());
    assert!(AddressBlock::v6(0xfe80, 0, 0, 0, 0, 0, 0, 0, 200).is_none());
    assert_eq!(Some(block("10.20.30.40/8")), AddressBlock::v4(10, 20, 30, 40, 8));
    assert_eq!(Some(block("2001:db8::1/32")), AddressBlock::v6(0x2001, 0xdb8, 0, 0, 0, 0, 0, 1, 32));
    let made = Ipv4Block::new(0x0a010203, 24).unwrap();
    assert_eq!(0x0a010203, made.addr());
    assert_eq!(24, made.prefix_len());
    let made6 = Ipv6Block::new(7, 127).unwrap();
    assert_eq!(7, made6.addr());
    assert_eq!(127, made6.prefix_len());
}

#[test]
fn addresses_from_their_parts() {
    assert_eq!(parsed("127.0.0.1"), IpAddress::v4(127, 0, 0, 1));
    assert_eq!(IpAddress::V4(0xC0A80164), IpAddress::v4(192, 168, 1, 100));
    assert_eq!(parsed("255.255.255.255"), IpAddress::v4(255, 255, 255, 255));
    assert_eq!(parsed("::1"), IpAddress::v6(0, 0, 0, 0, 0, 0, 0, 1));
    assert_eq!(
        parsed("2001:db8:1:2:3:4:5:6"),
        IpAddress::v6(0x2001, 0xdb8, 1, 2, 3, 4, 5, 6)
    );
    assert_eq!(
        IpAddress::V6(u128::MAX),
        IpAddress::v6(0xffff, 0xffff, 0xffff, 0xffff, 0xffff, 0xffff, 0xffff, 0xffff)
    );
    assert!(IpAddress::v4(1, 2, 3, 4).is_ipv4() && !IpAddress::v4(1, 2, 3, 4).is_ipv6());
    assert!(IpAddress::V6(4).is_ipv6() && !IpAddress::V6(4).is_ipv4());
}
