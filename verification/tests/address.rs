//! Addresses, datagrams and the tracker's records as plain values.
use udp_bridge::address::{IpAddress, SocketAddress};
use udp_bridge::datagram::Datagram;
use udp_bridge::tracker::ScrapeInfo;

#[test]
fn v4_address_holds_its_octets_and_port() {
    let address = SocketAddress::v4([127, 0, 0, 1], 6881);
    assert_eq!(address, SocketAddress::V4 { octets: [127, 0, 0, 1], port: 6881 });
    assert_eq!(address.ip(), IpAddress::V4([127, 0, 0, 1]));
    assert_eq!(address.port(), 6881);
}

#[test]
fn v6_address_holds_its_segments_and_port() {
    let address = SocketAddress::v6([0x2001, 0xdb8, 0, 0, 0, 0, 0, 0x17], 443);
    assert_eq!(
        address,
        SocketAddress::V6 {
            segments: [0x2001, 0xdb8, 0, 0, 0, 0, 0, 0x17],
            port: 443,
            flowinfo: 0,
            scope_id: 0,
        }
    );
    assert_eq!(address.ip(), IpAddress::V6([0x2001, 0xdb8, 0, 0, 0, 0, 0, 0x17]));
    assert_eq!(address.port(), 443);
}

#[test]
fn addresses_differ_by_port_and_by_ip() {
    assert_ne!(SocketAddress::v4([10, 0, 0, 5], 1234), SocketAddress::v4([10, 0, 0, 5], 1235));
    assert_ne!(SocketAddress::v4([10, 0, 0, 5], 1234), SocketAddress::v4([10, 0, 0, 6], 1234));
}

#[test]
fn datagram_holds_its_payload_and_address() {
    let address = SocketAddress::v4([10, 0, 0, 5], 1234);
    let datagram = Datagram::new(vec![1, 2, 3], address);
    assert_eq!(datagram.payload, vec![1, 2, 3]);
    assert_eq!(datagram.address, address);
    assert_eq!(datagram.len(), 3);
    assert_eq!(Datagram::new(Vec::new(), address).len(), 0);
}

#[test]
fn scrape_info_is_copied_field_by_field() {
    let info = ScrapeInfo { leechers: 3, seeders: 12, downloads: 40 };
    let copy = info;
    assert_eq!(copy, info);
    assert_eq!((copy.leechers, copy.seeders, copy.downloads), (3, 12, 40));
}
