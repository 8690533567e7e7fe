//! SOCKS5 addresses and the header of a UDP associate datagram, as bytes.
//!
//! An address is one octet for its kind, then four octets (IPv4), sixteen
//! octets (IPv6), or one octet of length and a host name of that length,
//! then the port, high octet first. The header of a UDP associate datagram
//! is two reserved octets, the fragment number and an address.

use vstd::prelude::*;
use vstd::slice::{slice_subrange, slice_to_vec};

verus! {

/// Kind octet of an IPv4 address.
pub const ADDR_TYPE_IPV4: u8 = 1;

/// Kind octet of a host name.
pub const ADDR_TYPE_DOMAIN_NAME: u8 = 3;

/// Kind octet of an IPv6 address.
pub const ADDR_TYPE_IPV6: u8 = 4;

/// Longest host name that an address can carry.
pub const MAX_DOMAIN_NAME_LEN: usize = 255;

/// An IP address, as its octets in network order.
#[derive(Debug, Clone, Copy, PartialEq, Eq)]
pub enum IpAddress {
    V4([u8; 4]),
    V6([u8; 16]),
}

/// An IP address and a port.
#[derive(Debug, Clone, Copy, PartialEq, Eq)]
pub struct SocketAddress {
    pub ip: IpAddress,
    pub port: u16,
}

/// A SOCKS5 address.
#[derive(Debug, Clone, PartialEq, Eq)]
pub enum Address {
    /// An IP address and a port.
    SocketAddress(SocketAddress),
    /// A host name, as its octets, and a port.
    DomainNameAddress(Vec<u8>, u16),
}

/// The header of a UDP associate datagram.
#[derive(Debug, Clone, PartialEq, Eq)]
pub struct UdpAssociateHeader {
    /// Fragment number; zero for a datagram that is whole.
    pub frag: u8,
    /// The remote end that the payload is for, or from.
    pub address: Address,
}

/// Why bytes are not an address or a header.
#[derive(Debug, Clone, Copy, PartialEq, Eq)]
pub enum Error {
    /// The bytes end before the address does.
    Truncated,
    /// The kind octet is none of the three known ones.
    AddressTypeNotSupported,
}

/// What an address is, apart from how it is held in memory.
pub enum AddressView {
    V4(Seq<u8>, u16),
    V6(Seq<u8>, u16),
    Domain(Seq<u8>, u16),
}

impl AddressView {
    /// The octets have the length that the kind calls for.
    pub open spec fn wf(self) -> bool {
        match self {
            AddressView::V4(octets, _) => octets.len() == 4,
            AddressView::V6(octets, _) => octets.len() == 16,
            AddressView::Domain(name, _) => name.len() <= MAX_DOMAIN_NAME_LEN,
        }
    }
}

impl View for SocketAddress {
    type V = AddressView;

    open spec fn view(&self) -> AddressView {
        match self.ip {
            IpAddress::V4(octets) => AddressView::V4(octets@, self.port),
            IpAddress::V6(octets) => AddressView::V6(octets@, self.port),
        }
    }
}

impl View for Address {
    type V = AddressView;

    open spec fn view(&self) -> AddressView {
        match self {
            Address::SocketAddress(addr) => addr@,
            Address::DomainNameAddress(name, port) => AddressView::Domain(name@, *port),
        }
    }
}

/// A port as two octets, the high one first.
pub open spec fn port_bytes(port: u16) -> Seq<u8> {
    seq![(port / 256) as u8, (port % 256) as u8]
}

/// The port that two octets stand for.
pub open spec fn port_of(high: u8, low: u8) -> u16 {
    (high * 256 + low) as u16
}

/// The bytes of an address.
pub open spec fn encode_address(addr: AddressView) -> Seq<u8> {
    match addr {
        AddressView::V4(octets, port) => seq![ADDR_TYPE_IPV4] + octets + port_bytes(port),
        AddressView::V6(octets, port) => seq![ADDR_TYPE_IPV6] + octets + port_bytes(port),
        AddressView::Domain(name, port) => seq![ADDR_TYPE_DOMAIN_NAME, name.len() as u8] + name
            + port_bytes(port),
    }
}

/// The address that `bytes` begin with and the number of bytes it takes, or
/// why they begin with none.
pub open spec fn decode_address(bytes: Seq<u8>) -> Result<(AddressView, int), Error> {
    if bytes.len() < 1 {
        Err(Error::Truncated)
    } else if bytes[0] == ADDR_TYPE_IPV4 {
        if bytes.len() < 7 {
            Err(Error::Truncated)
        } else {
            Ok((AddressView::V4(bytes.subrange(1, 5), port_of(bytes[5], bytes[6])), 7))
        }
    } else if bytes[0] == ADDR_TYPE_IPV6 {
        if bytes.len() < 19 {
            Err(Error::Truncated)
        } else {
            Ok((AddressView::V6(bytes.subrange(1, 17), port_of(bytes[17], bytes[18])), 19))
        }
    } else if bytes[0] == ADDR_TYPE_DOMAIN_NAME {
        if bytes.len() < 2 || bytes.len() < 4 + bytes[1] {
            Err(Error::Truncated)
        } else {
            let n = bytes[1] as int;
            Ok(
                (
                    AddressView::Domain(bytes.subrange(2, 2 + n), port_of(bytes[2 + n], bytes[3 + n])),
                    4 + n,
                ),
            )
        }
    } else {
        Err(Error::AddressTypeNotSupported)
    }
}

/// Length of what precedes the address in a header: two reserved octets
/// and the fragment number.
pub const HEADER_PREFIX_LEN: usize = 3;

/// The bytes of a header.
pub open spec fn encode_header(frag: u8, addr: AddressView) -> Seq<u8> {
    seq![0u8, 0u8, frag] + encode_address(addr)
}

/// The fragment number and the address of the header that `bytes` begin
/// with, and the number of bytes it takes, or why they begin with none.
pub open spec fn decode_header(bytes: Seq<u8>) -> Result<(u8, AddressView, int), Error> {
    if bytes.len() < HEADER_PREFIX_LEN {
        Err(Error::Truncated)
    } else {
        match decode_address(bytes.skip(HEADER_PREFIX_LEN as int)) {
            Ok((addr, n)) => Ok((bytes[2], addr, n + HEADER_PREFIX_LEN)),
            Err(e) => Err(e),
        }
    }
}

/// What an exec result of reading a header says of the bytes read.
pub open spec fn header_read(r: Result<(UdpAssociateHeader, usize), Error>) -> Result<
    (u8, AddressView, int),
    Error,
> {
    match r {
        Ok((header, n)) => Ok((header.frag, header.address@, n as int)),
        Err(e) => Err(e),
    }
}

/// A header that was written is read back, whatever follows it.
pub proof fn lemma_header_roundtrip(frag: u8, addr: AddressView, rest: Seq<u8>)
    requires
        addr.wf(),
    ensures
        decode_header(encode_header(frag, addr) + rest) == Ok::<(u8, AddressView, int), Error>(
            (frag, addr, encode_header(frag, addr).len() as int),
        ),
{
    let bytes = encode_header(frag, addr) + rest;
    assert(bytes.skip(HEADER_PREFIX_LEN as int) == encode_address(addr) + rest);
    lemma_address_roundtrip(addr, rest);
}

/// What an exec result of reading an address says of the bytes read.
pub open spec fn address_read(r: Result<(Address, usize), Error>) -> Result<
    (AddressView, int),
    Error,
> {
    match r {
        Ok((addr, n)) => Ok((addr@, n as int)),
        Err(e) => Err(e),
    }
}

/// An address that was written is read back, whatever follows it.
pub proof fn lemma_address_roundtrip(addr: AddressView, rest: Seq<u8>)
    requires
        addr.wf(),
    ensures
        decode_address(encode_address(addr) + rest) == Ok::<(AddressView, int), Error>(
            (addr, encode_address(addr).len() as int),
        ),
{
    let bytes = encode_address(addr) + rest;
    match addr {
        AddressView::V4(octets, port) => {
            assert(bytes.subrange(1, 5) == octets);
        },
        AddressView::V6(octets, port) => {
            assert(bytes.subrange(1, 17) == octets);
        },
        AddressView::Domain(name, port) => {
            let n = name.len() as int;
            assert(bytes.subrange(2, 2 + n) == name);
        },
    }
}

/// Bytes that are read as an address begin with the bytes of that address.
pub proof fn lemma_address_read_is_prefix(bytes: Seq<u8>)
    requires
        decode_address(bytes) is Ok,
    ensures
        decode_address(bytes)->Ok_0.0.wf(),
        0 < decode_address(bytes)->Ok_0.1 <= bytes.len(),
        encode_address(decode_address(bytes)->Ok_0.0) == bytes.take(decode_address(bytes)->Ok_0.1),
{
}

/// Appends the two octets of a port.
fn write_port(port: u16, buf: &mut Vec<u8>)
    ensures
        final(buf)@ == old(buf)@ + port_bytes(port),
{
    buf.push((port / 256) as u8);
    buf.push((port % 256) as u8);
}

/// The port that two octets stand for.
fn read_port(high: u8, low: u8) -> (port: u16)
    ensures
        port == port_of(high, low),
{
    high as u16 * 256 + low as u16
}

impl Address {
    /// Whether the address can be written: a host name must fit the one
    /// octet that holds its length.
    pub fn is_valid(&self) -> (r: bool)
        ensures
            r == self@.wf(),
    {
        match self {
            Address::SocketAddress(_) => true,
            Address::DomainNameAddress(name, _) => name.len() <= MAX_DOMAIN_NAME_LEN,
        }
    }

    /// The number of bytes that the address takes when written.
    pub fn serialized_len(&self) -> (n: usize)
        requires
            self@.wf(),
        ensures
            n == encode_address(self@).len(),
    {
        match self {
            Address::SocketAddress(addr) => match addr.ip {
                IpAddress::V4(_) => 7,
                IpAddress::V6(_) => 19,
            },
            Address::DomainNameAddress(name, _) => 4 + name.len(),
        }
    }

    /// Appends the bytes of the address to `buf`.
    pub fn write_to_buf(&self, buf: &mut Vec<u8>)
        requires
            self@.wf(),
        ensures
            final(buf)@ == old(buf)@ + encode_address(self@),
    {
        match self {
            Address::SocketAddress(addr) => {
                match &addr.ip {
                    IpAddress::V4(octets) => {
                        buf.push(ADDR_TYPE_IPV4);
                        buf.extend_from_slice(octets.as_slice());
                    },
                    IpAddress::V6(octets) => {
                        buf.push(ADDR_TYPE_IPV6);
                        buf.extend_from_slice(octets.as_slice());
                    },
                }
                write_port(addr.port, buf);
            },
            Address::DomainNameAddress(name, port) => {
                buf.push(ADDR_TYPE_DOMAIN_NAME);
                buf.push(name.len() as u8);
                buf.extend_from_slice(name.as_slice());
                assert(buf@ == old(buf)@ + (seq![ADDR_TYPE_DOMAIN_NAME, name@.len() as u8]
                    + name@));
                write_port(*port, buf);
            },
        }
    }

    /// Reads the address that `buf` begins with, and tells how many bytes
    /// it takes.
    pub fn read_from(buf: &[u8]) -> (r: Result<(Address, usize), Error>)
        ensures
            address_read(r) == decode_address(buf@),
    {
        if buf.len() < 1 {
            return Err(Error::Truncated);
        }
        let atyp = buf[0];
        if atyp == ADDR_TYPE_IPV4 {
            if buf.len() < 7 {
                return Err(Error::Truncated);
            }
            let octets: [u8; 4] = [buf[1], buf[2], buf[3], buf[4]];
            assert(octets@ == buf@.subrange(1, 5));
            let port = read_port(buf[5], buf[6]);
            Ok((Address::SocketAddress(SocketAddress { ip: IpAddress::V4(octets), port }), 7))
        } else if atyp == ADDR_TYPE_IPV6 {
            if buf.len() < 19 {
                return Err(Error::Truncated);
            }
            let octets: [u8; 16] = [
                buf[1],
                buf[2],
                buf[3],
                buf[4],
                buf[5],
                buf[6],
                buf[7],
                buf[8],
                buf[9],
                buf[10],
                buf[11],
                buf[12],
                buf[13],
                buf[14],
                buf[15],
                buf[16],
            ];
            assert(octets@ == buf@.subrange(1, 17));
            let port = read_port(buf[17], buf[18]);
            Ok((Address::SocketAddress(SocketAddress { ip: IpAddress::V6(octets), port }), 19))
        } else if atyp == ADDR_TYPE_DOMAIN_NAME {
            if buf.len() < 2 {
                return Err(Error::Truncated);
            }
            let n = buf[1] as usize;
            if buf.len() < 4 + n {
                return Err(Error::Truncated);
            }
            let name = slice_to_vec(slice_subrange(buf, 2, 2 + n));
            let port = read_port(buf[2 + n], buf[3 + n]);
            Ok((Address::DomainNameAddress(name, port), 4 + n))
        } else {
            Err(Error::AddressTypeNotSupported)
        }
    }
}

impl UdpAssociateHeader {
    /// A header with the given fragment number and address.
    pub fn new(frag: u8, address: Address) -> (r: UdpAssociateHeader)
        ensures
            r.frag == frag,
            r.address == address,
    {
        UdpAssociateHeader { frag, address }
    }

    /// The number of bytes that the header takes when written.
    pub fn serialized_len(&self) -> (n: usize)
        requires
            self.address@.wf(),
        ensures
            n == encode_header(self.frag, self.address@).len(),
    {
        HEADER_PREFIX_LEN + self.address.serialized_len()
    }

    /// Appends the bytes of the header to `buf`.
    pub fn write_to_buf(&self, buf: &mut Vec<u8>)
        requires
            self.address@.wf(),
        ensures
            final(buf)@ == old(buf)@ + encode_header(self.frag, self.address@),
    {
        buf.push(0);
        buf.push(0);
        buf.push(self.frag);
        self.address.write_to_buf(buf);
    }

    /// Reads the header that `buf` begins with, and tells how many bytes it
    /// takes. The two reserved octets may hold anything.
    pub fn read_from(buf: &[u8]) -> (r: Result<(UdpAssociateHeader, usize), Error>)
        ensures
            header_read(r) == decode_header(buf@),
    {
        if buf.len() < HEADER_PREFIX_LEN {
            return Err(Error::Truncated);
        }
        let frag = buf[2];
        match Address::read_from(slice_subrange(buf, HEADER_PREFIX_LEN, buf.len())) {
            Ok((address, n)) => Ok((UdpAssociateHeader { frag, address }, n + HEADER_PREFIX_LEN)),
            Err(e) => Err(e),
        }
    }
}

} // verus!
