//! Framing of the datagrams that a UDP association relays.
//!
//! A client sends a UDP associate header and a payload. The server is sent
//! the address of that header and the payload, encrypted; what it sends
//! back decrypts to an address and a payload, and the client is handed a
//! header with its own address and that payload.

use vstd::prelude::*;
use vstd::slice::slice_subrange;
use crate::socks5::{
    Address, AddressView, Error, SocketAddress, UdpAssociateHeader, decode_address,
    decode_header, encode_address, encode_header, lemma_address_read_is_prefix, HEADER_PREFIX_LEN,
};

verus! {

/// Why a datagram is not relayed.
#[derive(Debug, Clone, Copy, PartialEq, Eq)]
pub enum RelayError {
    /// It does not begin with a header, or with an address.
    Malformed(Error),
    /// Its header has a fragment number other than zero.
    UnsupportedFragmentation,
    /// It was too short to be decrypted.
    PacketTooShort,
}

/// The address and the payload of a client's datagram, or why it is
/// refused. A header that cannot be read is reported before its fragment
/// number is looked at.
pub open spec fn parsed_packet(pkt: Seq<u8>) -> Result<(AddressView, Seq<u8>), RelayError> {
    match decode_header(pkt) {
        Err(e) => Err(RelayError::Malformed(e)),
        Ok((frag, addr, n)) => if frag != 0 {
            Err(RelayError::UnsupportedFragmentation)
        } else {
            Ok((addr, pkt.skip(n)))
        },
    }
}

/// What an exec result of parsing a datagram says of it.
pub open spec fn packet_parsed(r: Result<(Address, Vec<u8>), RelayError>) -> Result<
    (AddressView, Seq<u8>),
    RelayError,
> {
    match r {
        Ok((addr, payload)) => Ok((addr@, payload@)),
        Err(e) => Err(e),
    }
}

/// The plain text sent to the server for a client's datagram: the address
/// and then the payload.
pub open spec fn server_bound(pkt: Seq<u8>) -> Result<Seq<u8>, RelayError> {
    match parsed_packet(pkt) {
        Ok((addr, payload)) => Ok(encode_address(addr) + payload),
        Err(e) => Err(e),
    }
}

/// The datagram handed to the client at `src` for what the server sent,
/// where `plain` is what decrypting it gave: a header without fragment
/// number that names the client itself, then what follows the address in
/// the plain text.
pub open spec fn client_bound(plain: Option<Seq<u8>>, src: AddressView) -> Result<
    Seq<u8>,
    RelayError,
> {
    match plain {
        None => Err(RelayError::PacketTooShort),
        Some(bytes) => match decode_address(bytes) {
            Err(e) => Err(RelayError::Malformed(e)),
            Ok((_, n)) => Ok(encode_header(0, src) + bytes.skip(n)),
        },
    }
}

/// What an exec result that holds bytes says.
pub open spec fn bytes_of(r: Result<Vec<u8>, RelayError>) -> Result<Seq<u8>, RelayError> {
    match r {
        Ok(bytes) => Ok(bytes@),
        Err(e) => Err(e),
    }
}

/// What is sent to the server for a datagram that is relayed is that
/// datagram without the two reserved octets and the fragment number.
pub proof fn lemma_server_bound_strips_prefix(pkt: Seq<u8>)
    requires
        server_bound(pkt) is Ok,
    ensures
        pkt.len() >= HEADER_PREFIX_LEN,
        server_bound(pkt) == Ok::<Seq<u8>, RelayError>(pkt.skip(HEADER_PREFIX_LEN as int)),
{
    let tail = pkt.skip(HEADER_PREFIX_LEN as int);
    lemma_address_read_is_prefix(tail);
    let (addr, n) = decode_address(tail)->Ok_0;
    assert(tail.take(n) + pkt.skip(n + HEADER_PREFIX_LEN) == tail);
}

/// Splits a client's datagram into the address that it is for and its
/// payload. A datagram that is a fragment is refused.
pub fn parse_packet(pkt: &[u8]) -> (r: Result<(Address, Vec<u8>), RelayError>)
    ensures
        packet_parsed(r) == parsed_packet(pkt@),
        r matches Ok((addr, _)) ==> addr@.wf(),
{
    let (header, n) = match UdpAssociateHeader::read_from(pkt) {
        Ok(read) => read,
        Err(e) => {
            return Err(RelayError::Malformed(e));
        },
    };
    if header.frag != 0 {
        return Err(RelayError::UnsupportedFragmentation);
    }
    proof {
        lemma_address_read_is_prefix(pkt@.skip(HEADER_PREFIX_LEN as int));
    }
    let payload = vstd::slice::slice_to_vec(slice_subrange(pkt, n, pkt.len()));
    Ok((header.address, payload))
}

/// Frames a client's datagram for the server: the address that it is for,
/// then its payload. What comes back is the plain text to encrypt.
pub fn relay_l2r(pkt: &[u8]) -> (r: Result<Vec<u8>, RelayError>)
    ensures
        bytes_of(r) == server_bound(pkt@),
{
    let (addr, payload) = match parse_packet(pkt) {
        Ok(parsed) => parsed,
        Err(e) => {
            return Err(e);
        },
    };
    let mut send_buf: Vec<u8> = Vec::new();
    addr.write_to_buf(&mut send_buf);
    send_buf.extend_from_slice(payload.as_slice());
    assert(send_buf@ == encode_address(addr@) + payload@);
    Ok(send_buf)
}

/// Frames what the server sent for the client at `src_addr`. `decrypted`
/// is what decrypting the server's datagram gave, nothing where it was too
/// short for its cipher. The address that the plain text begins with is
/// read and dropped; the client is told its own address.
pub fn relay_r2l(decrypted: Option<Vec<u8>>, src_addr: SocketAddress) -> (r: Result<
    Vec<u8>,
    RelayError,
>)
    ensures
        bytes_of(r) == client_bound(
            match decrypted {
                Some(bytes) => Some(bytes@),
                None => None,
            },
            src_addr@,
        ),
{
    let decrypt_buf = match decrypted {
        None => {
            return Err(RelayError::PacketTooShort);
        },
        Some(b) => b,
    };
    let n = match Address::read_from(decrypt_buf.as_slice()) {
        Ok((_, n)) => n,
        Err(e) => {
            return Err(RelayError::Malformed(e));
        },
    };
    proof {
        lemma_address_read_is_prefix(decrypt_buf@);
    }
    let mut payload: Vec<u8> = Vec::new();
    let header = UdpAssociateHeader::new(0, Address::SocketAddress(src_addr));
    header.write_to_buf(&mut payload);
    payload.extend_from_slice(slice_subrange(decrypt_buf.as_slice(), n, decrypt_buf.len()));
    assert(payload@ == encode_header(0, src_addr@) + decrypt_buf@.skip(n as int));
    Ok(payload)
}

} // verus!
