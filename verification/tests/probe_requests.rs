use relay_core::probe::{
    check_request, CHECK_DNS_PORT, CHECK_HTTP_HOST, CHECK_HTTP_PORT, CHECK_HTTP_REQUEST,
};
use relay_core::server::ServerType;
use relay_core::socks5::{Address, IpAddress, SocketAddress};

#[test]
fn tcp_probe_asks_for_generate_204() {
    let probe = check_request(ServerType::Tcp);
    assert_eq!(probe.target, Address::DomainNameAddress(b"dl.google.com".to_vec(), 80));
    assert_eq!(
        probe.payload,
        b"GET /generate_204 HTTP/1.1\r\nHost: dl.google.com\r\nConnection: close\r\nAccept: */*\r\n\r\n"
            .to_vec()
    );
    assert_eq!(probe.payload.len(), 83);
    assert_eq!(CHECK_HTTP_HOST, "dl.google.com");
    assert_eq!(CHECK_HTTP_PORT, 80);
    assert_eq!(CHECK_HTTP_REQUEST.as_bytes(), &probe.payload[..]);
}

#[test]
fn udp_probe_asks_a_name_server() {
    let probe = check_request(ServerType::Udp);
    assert_eq!(
        probe.target,
        Address::SocketAddress(SocketAddress { ip: IpAddress::V4([8, 8, 8, 8]), port: 53 })
    );
    assert_eq!(
        probe.payload,
        vec![
            0x12, 0x34, 0x01, 0x00, 0x00, 0x01, 0x00, 0x00, 0x00, 0x00, 0x00, 0x00, 0x05, 0x62,
            0x61, 0x69, 0x64, 0x75, 0x03, 0x63, 0x6f, 0x6d, 0x00, 0x00, 0x01, 0x00, 0x01
        ]
    );
    assert_eq!(CHECK_DNS_PORT, 53);
}

#[test]
fn probe_target_can_be_written_as_an_address() {
    let probe = check_request(ServerType::Tcp);
    let mut buf = Vec::new();
    probe.target.write_to_buf(&mut buf);
    assert_eq!(buf.len(), 17);
    assert_eq!(Address::read_from(&buf), Ok((probe.target, 17)));
}
