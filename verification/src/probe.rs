//! What a server is probed with: over TCP a small HTTP request, over UDP a
//! DNS query, each sent through the server to a fixed destination.

use vstd::prelude::*;
use vstd::slice::slice_to_vec;
use vstd::string::StringSliceAdditionalSpecFns;
use crate::server::ServerType;
use crate::socks5::{Address, AddressView, IpAddress, SocketAddress};

verus! {

/// The request of the TCP probe. One octet of an answer makes the probe a
/// success.
pub const CHECK_HTTP_REQUEST: &'static str =
    "GET /generate_204 HTTP/1.1\r\nHost: dl.google.com\r\nConnection: close\r\nAccept: */*\r\n\r\n";

/// The host that the TCP probe connects to.
pub const CHECK_HTTP_HOST: &'static str = "dl.google.com";

/// The port that the TCP probe connects to.
pub const CHECK_HTTP_PORT: u16 = 80;

/// The port of the name server that the UDP probe asks.
pub const CHECK_DNS_PORT: u16 = 53;

/// The query of the UDP probe: a DNS question for the address of
/// `baidu.com`.
pub open spec fn check_dns_query() -> Seq<u8> {
    seq![
        0x12u8, 0x34, 0x01, 0x00, 0x00, 0x01, 0x00, 0x00, 0x00, 0x00, 0x00, 0x00,
        0x05, 0x62, 0x61, 0x69, 0x64, 0x75, 0x03, 0x63, 0x6f, 0x6d, 0x00,
        0x00, 0x01, 0x00, 0x01,
    ]
}

/// The octets of the name server that the UDP probe asks, 8.8.8.8.
pub open spec fn check_dns_server() -> Seq<u8> {
    seq![8u8, 8, 8, 8]
}

/// Where a probe of the given kind is sent.
pub open spec fn probe_target(server_type: ServerType) -> AddressView {
    match server_type {
        ServerType::Tcp => AddressView::Domain(CHECK_HTTP_HOST.spec_bytes(), CHECK_HTTP_PORT),
        ServerType::Udp => AddressView::V4(check_dns_server(), CHECK_DNS_PORT),
    }
}

/// What a probe of the given kind sends.
pub open spec fn probe_payload(server_type: ServerType) -> Seq<u8> {
    match server_type {
        ServerType::Tcp => CHECK_HTTP_REQUEST.spec_bytes(),
        ServerType::Udp => check_dns_query(),
    }
}

/// A probe: where it goes and what it sends.
#[derive(Debug, Clone, PartialEq, Eq)]
pub struct CheckRequest {
    pub target: Address,
    pub payload: Vec<u8>,
}

/// The probe for servers of the given kind.
pub fn check_request(server_type: ServerType) -> (r: CheckRequest)
    ensures
        r.target@ == probe_target(server_type),
        r.target@.wf(),
        r.payload@ == probe_payload(server_type),
{
    match server_type {
        ServerType::Tcp => {
            let host = slice_to_vec(CHECK_HTTP_HOST.as_bytes());
            proof {
                reveal_strlit("dl.google.com");
                vstd::string::is_ascii_spec_bytes(CHECK_HTTP_HOST);
            }
            CheckRequest {
                target: Address::DomainNameAddress(host, CHECK_HTTP_PORT),
                payload: slice_to_vec(CHECK_HTTP_REQUEST.as_bytes()),
            }
        },
        ServerType::Udp => {
            let octets: [u8; 4] = [8, 8, 8, 8];
            let payload: Vec<u8> = vec![
                0x12u8, 0x34, 0x01, 0x00, 0x00, 0x01, 0x00, 0x00, 0x00, 0x00, 0x00, 0x00,
                0x05, 0x62, 0x61, 0x69, 0x64, 0x75, 0x03, 0x63, 0x6f, 0x6d, 0x00,
                0x00, 0x01, 0x00, 0x01,
            ];
            CheckRequest {
                target: Address::SocketAddress(
                    SocketAddress { ip: IpAddress::V4(octets), port: CHECK_DNS_PORT },
                ),
                payload,
            }
        },
    }
}

} // verus!
