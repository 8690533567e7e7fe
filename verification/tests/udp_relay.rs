use relay_core::socks5::{Address, Error, IpAddress, SocketAddress};
use relay_core::udprelay::{parse_packet, relay_l2r, relay_r2l, RelayError};

fn client() -> SocketAddress {
    SocketAddress { ip: IpAddress::V4([127, 0, 0, 1]), port: 40000 }
}

#[test]
fn packet_is_split_into_address_and_payload() {
    let pkt = [0, 0, 0, 1, 8, 8, 8, 8, 0, 53, b'h', b'i'];
    let (addr, payload) = parse_packet(&pkt).expect("a whole datagram");
    assert_eq!(
        addr,
        Address::SocketAddress(SocketAddress { ip: IpAddress::V4([8, 8, 8, 8]), port: 53 })
    );
    assert_eq!(payload, b"hi".to_vec());
}

#[test]
fn packet_may_have_no_payload() {
    let pkt = [0, 0, 0, 3, 1, b'x', 0, 80];
    let (addr, payload) = parse_packet(&pkt).expect("a whole datagram");
    assert_eq!(addr, Address::DomainNameAddress(vec![b'x'], 80));
    assert!(payload.is_empty());
}

#[test]
fn fragmentation_rejection() {
    let pkt = [0, 0, 1, 1, 8, 8, 8, 8, 0, 53, b'h', b'i'];
    assert_eq!(parse_packet(&pkt), Err(RelayError::UnsupportedFragmentation));
    assert_eq!(relay_l2r(&pkt), Err(RelayError::UnsupportedFragmentation));
    let pkt = [0, 0, 255, 3, 1, b'x', 0, 80];
    assert_eq!(relay_l2r(&pkt), Err(RelayError::UnsupportedFragmentation));
}

#[test]
fn header_is_read_before_the_fragment_number_is_looked_at() {
    assert_eq!(parse_packet(&[0, 0, 1, 1, 8, 8]), Err(RelayError::Malformed(Error::Truncated)));
    assert_eq!(
        parse_packet(&[0, 0, 1, 6, 8, 8]),
        Err(RelayError::Malformed(Error::AddressTypeNotSupported))
    );
}

#[test]
fn malformed_packet_is_refused() {
    assert_eq!(relay_l2r(&[]), Err(RelayError::Malformed(Error::Truncated)));
    assert_eq!(relay_l2r(&[0, 0, 0]), Err(RelayError::Malformed(Error::Truncated)));
    assert_eq!(
        relay_l2r(&[0, 0, 0, 2, 0, 0]),
        Err(RelayError::Malformed(Error::AddressTypeNotSupported))
    );
}

#[test]
fn server_is_sent_address_then_payload() {
    let pkt = [0, 0, 0, 1, 8, 8, 8, 8, 0, 53, 1, 2, 3];
    assert_eq!(relay_l2r(&pkt), Ok(vec![1, 8, 8, 8, 8, 0, 53, 1, 2, 3]));
    let pkt = [7, 7, 0, 3, 2, b'a', b'b', 1, 187, 9];
    assert_eq!(relay_l2r(&pkt), Ok(vec![3, 2, b'a', b'b', 1, 187, 9]));
}

#[test]
fn client_is_handed_its_own_address_and_the_payload() {
    // the server answers for 8.8.8.8:53
    let plain = vec![1, 8, 8, 8, 8, 0, 53, b'o', b'k'];
    assert_eq!(
        relay_r2l(Some(plain), client()),
        Ok(vec![0, 0, 0, 1, 127, 0, 0, 1, 0x9c, 0x40, b'o', b'k'])
    );
}

#[test]
fn client_with_an_ipv6_address() {
    let src = SocketAddress { ip: IpAddress::V6([0, 0, 0, 0, 0, 0, 0, 0, 0, 0, 0, 0, 0, 0, 0, 1]), port: 2 };
    let plain = vec![3, 1, b'z', 0, 1];
    let mut expected = vec![0, 0, 0, 4];
    expected.extend_from_slice(&[0, 0, 0, 0, 0, 0, 0, 0, 0, 0, 0, 0, 0, 0, 0, 1]);
    expected.extend_from_slice(&[0, 2]);
    assert_eq!(relay_r2l(Some(plain), src), Ok(expected));
}

#[test]
fn packet_too_short_to_decrypt() {
    assert_eq!(relay_r2l(None, client()), Err(RelayError::PacketTooShort));
}

#[test]
fn reply_without_an_address_is_refused() {
    assert_eq!(relay_r2l(Some(vec![]), client()), Err(RelayError::Malformed(Error::Truncated)));
    assert_eq!(
        relay_r2l(Some(vec![1, 2, 3]), client()),
        Err(RelayError::Malformed(Error::Truncated))
    );
    assert_eq!(
        relay_r2l(Some(vec![8, 2, 3]), client()),
        Err(RelayError::Malformed(Error::AddressTypeNotSupported))
    );
}
