use vstd::prelude::*;
use vstd::string::StringSliceAdditionalSpecFns;

use crate::error::{ArgumentFault, Error, ResponseFault};
use crate::protocol::{magic, opcode_of, QueryType, HEADER_SIZE, MAX_PACKET_SIZE};
use crate::types::{IpAddress, ServerAddr};

verus! {

/// Two bytes holding `x` little-endian.
pub open spec fn le16_bytes(x: u16) -> Seq<u8> {
    seq![(x % 256) as u8, (x / 256) as u8]
}

/// The 11-byte header of a request of kind `kind` to an IPv4 server.
pub open spec fn header_of(a: u8, b: u8, c: u8, d: u8, port: u16, kind: QueryType) -> Seq<u8> {
    magic() + seq![a, b, c, d] + le16_bytes(port) + seq![opcode_of(kind)]
}

/// The request datagram for `kind`, without payload.
pub open spec fn request_of(peer: ServerAddr, kind: QueryType) -> Result<Seq<u8>, Error> {
    match peer.ip {
        IpAddress::V4(a, b, c, d) => Ok(header_of(a, b, c, d, peer.port, kind)),
        IpAddress::V6(_) => Err(Error::UnsupportedAddress),
    }
}

/// The RCON request datagram carrying password bytes `pw` and command bytes `cmd`.
pub open spec fn rcon_request_of(peer: ServerAddr, pw: Seq<u8>, cmd: Seq<u8>) -> Result<
    Seq<u8>,
    Error,
> {
    if pw.len() > 255 {
        Err(Error::InvalidArgument(ArgumentFault::PasswordTooLong))
    } else if cmd.len() > 1024 {
        Err(Error::InvalidArgument(ArgumentFault::CommandTooLong))
    } else {
        match request_of(peer, QueryType::Rcon) {
            Ok(h) => Ok(h + le16_bytes(pw.len() as u16) + pw + le16_bytes(cmd.len() as u16) + cmd),
            Err(e) => Err(e),
        }
    }
}

/// The ping request datagram carrying `nonce`.
pub open spec fn ping_request_of(peer: ServerAddr, nonce: Seq<u8>) -> Result<Seq<u8>, Error> {
    match request_of(peer, QueryType::Ping) {
        Ok(h) => Ok(h + nonce),
        Err(e) => Err(e),
    }
}

/// The bytes of a built datagram, or the error.
pub open spec fn bytes_of(r: Result<Vec<u8>, Error>) -> Result<Seq<u8>, Error> {
    match r {
        Ok(v) => Ok(v@),
        Err(e) => Err(e),
    }
}

/// What a received datagram yields: its payload, or why it was refused.
pub open spec fn strip_of(b: Seq<u8>) -> Result<Seq<u8>, Error> {
    if b.len() < 11 {
        Err(Error::InvalidResponse(ResponseFault::TooShort))
    } else if b.subrange(0, 4) != magic() {
        Err(Error::InvalidResponse(ResponseFault::BadMagic))
    } else {
        Ok(b.subrange(11, b.len() as int))
    }
}

fn push_le16(out: &mut Vec<u8>, x: u16)
    ensures
        final(out)@ == old(out)@ + le16_bytes(x),
{
    out.push((x % 256) as u8);
    out.push((x / 256) as u8);
    assert(final(out)@ =~= old(out)@ + le16_bytes(x));
}

fn push_all(out: &mut Vec<u8>, src: &[u8])
    ensures
        final(out)@ == old(out)@ + src@,
{
    let mut i: usize = 0;
    while i < src.len()
        invariant
            0 <= i <= src.len(),
            out@ == old(out)@ + src@.subrange(0, i as int),
        decreases src.len() - i,
    {
        out.push(src[i]);
        i = i + 1;
        assert(out@ =~= old(out)@ + src@.subrange(0, i as int));
    }
    assert(src@.subrange(0, src.len() as int) =~= src@);
}

/// Builds the request datagram of `kind` for `peer`: the header alone.
pub fn build_request(peer: &ServerAddr, kind: QueryType) -> (r: Result<Vec<u8>, Error>)
    ensures
        bytes_of(r) == request_of(*peer, kind),
{
    match peer.ip {
        IpAddress::V4(a, b, c, d) => {
            let mut out: Vec<u8> = Vec::new();
            out.push(0x53);
            out.push(0x41);
            out.push(0x4d);
            out.push(0x50);
            out.push(a);
            out.push(b);
            out.push(c);
            out.push(d);
            push_le16(&mut out, peer.port);
            out.push(kind.opcode());
            assert(out@ =~= header_of(a, b, c, d, peer.port, kind));
            Ok(out)
        },
        IpAddress::V6(_) => Err(Error::UnsupportedAddress),
    }
}

/// Builds an RCON request: the header, then the password and the command,
/// each after its length as two little-endian bytes.
pub fn build_rcon_request(peer: &ServerAddr, password: &str, command: &str) -> (r: Result<
    Vec<u8>,
    Error,
>)
    ensures
        bytes_of(r) == rcon_request_of(*peer, password.spec_bytes(), command.spec_bytes()),
{
    let pw = password.as_bytes();
    let cmd = command.as_bytes();
    if pw.len() > 255 {
        return Err(Error::InvalidArgument(ArgumentFault::PasswordTooLong));
    }
    if cmd.len() > 1024 {
        return Err(Error::InvalidArgument(ArgumentFault::CommandTooLong));
    }
    let mut out = match build_request(peer, QueryType::Rcon) {
        Ok(h) => h,
        Err(e) => return Err(e),
    };
    push_le16(&mut out, pw.len() as u16);
    push_all(&mut out, pw);
    push_le16(&mut out, cmd.len() as u16);
    push_all(&mut out, cmd);
    Ok(out)
}

/// Builds a ping request carrying the four bytes of `nonce`.
pub fn build_ping_request_with(peer: &ServerAddr, nonce: [u8; 4]) -> (r: Result<Vec<u8>, Error>)
    ensures
        bytes_of(r) == ping_request_of(*peer, nonce@),
{
    let mut out = match build_request(peer, QueryType::Ping) {
        Ok(h) => h,
        Err(e) => return Err(e),
    };
    push_all(&mut out, &nonce);
    Ok(out)
}

/// Relies on `rand::random`: four bytes from the thread-local generator.
/// Nothing is known of their values.
#[verifier::external_body]
fn random_nonce() -> (r: [u8; 4]) {
    rand::random::<[u8; 4]>()
}

/// Builds a ping request with a fresh random nonce, and returns the nonce too.
pub fn build_ping_request(peer: &ServerAddr) -> (r: Result<(Vec<u8>, [u8; 4]), Error>)
    ensures
        match r {
            Ok((b, n)) => ping_request_of(*peer, n@) == Ok::<Seq<u8>, Error>(b@),
            Err(e) => request_of(*peer, QueryType::Ping) == Err::<Seq<u8>, Error>(e),
        },
{
    let nonce = random_nonce();
    match build_ping_request_with(peer, nonce) {
        Ok(b) => Ok((b, nonce)),
        Err(e) => Err(e),
    }
}

/// Copies `b[start..end]`.
fn copy_range(b: &[u8], start: usize, end: usize) -> (r: Vec<u8>)
    requires
        start <= end <= b@.len(),
    ensures
        r@ == b@.subrange(start as int, end as int),
{
    let mut out: Vec<u8> = Vec::new();
    let mut i: usize = start;
    while i < end
        invariant
            start <= i <= end <= b@.len(),
            out@ == b@.subrange(start as int, i as int),
        decreases end - i,
    {
        out.push(b[i]);
        i = i + 1;
        assert(out@ =~= b@.subrange(start as int, i as int));
    }
    out
}

/// Checks the header of a received datagram and returns the payload after it.
/// The echoed address, port and opcode are not compared with the request.
pub fn validate_and_strip(datagram: &[u8]) -> (r: Result<Vec<u8>, Error>)
    ensures
        bytes_of(r) == strip_of(datagram@),
        r is Ok <==> (datagram@.len() >= HEADER_SIZE && datagram@.subrange(0, 4) == magic()),
{
    if datagram.len() < HEADER_SIZE {
        return Err(Error::InvalidResponse(ResponseFault::TooShort));
    }
    if !(datagram[0] == 0x53 && datagram[1] == 0x41 && datagram[2] == 0x4d && datagram[3] == 0x50) {
        proof {
            if datagram@.subrange(0, 4) == magic() {
                assert(datagram@.subrange(0, 4)[0] == datagram@[0]);
                assert(datagram@.subrange(0, 4)[1] == datagram@[1]);
                assert(datagram@.subrange(0, 4)[2] == datagram@[2]);
                assert(datagram@.subrange(0, 4)[3] == datagram@[3]);
            }
        }
        return Err(Error::InvalidResponse(ResponseFault::BadMagic));
    }
    assert(datagram@.subrange(0, 4) =~= magic());
    Ok(copy_range(datagram, HEADER_SIZE, datagram.len()))
}

/// Every request built for an IPv4 server is 11 bytes: the tag `SAMP`, the
/// four octets in order, the port low byte first, then the opcode of the kind.
pub proof fn lemma_request_layout(peer: ServerAddr, kind: QueryType)
    requires
        peer.ip is V4,
    ensures
        request_of(peer, kind) is Ok,
        ({
            let b = request_of(peer, kind)->Ok_0;
            &&& b.len() == HEADER_SIZE
            &&& b.subrange(0, 4) == magic()
            &&& b.subrange(4, 8) == seq![peer.ip->V4_0, peer.ip->V4_1, peer.ip->V4_2, peer.ip->V4_3]
            &&& b[8] as int == peer.port % 256
            &&& b[9] as int == peer.port / 256
            &&& b[8] as int + 256 * b[9] as int == peer.port
            &&& b[10] == opcode_of(kind)
        }),
{
    let b = request_of(peer, kind)->Ok_0;
    assert(b.subrange(0, 4) =~= magic());
    assert(b.subrange(4, 8) =~= seq![peer.ip->V4_0, peer.ip->V4_1, peer.ip->V4_2, peer.ip->V4_3]);
}

/// A header built for an IPv4 server passes the check, and the check hands
/// back exactly the bytes that follow it.
pub proof fn lemma_strip_request(peer: ServerAddr, kind: QueryType, payload: Seq<u8>)
    requires
        peer.ip is V4,
    ensures
        request_of(peer, kind) matches Ok(h) && strip_of(h + payload) == Ok::<Seq<u8>, Error>(payload),
{
    let h = request_of(peer, kind)->Ok_0;
    let b = h + payload;
    assert(b.subrange(0, 4) =~= magic());
    assert(b.subrange(11, b.len() as int) =~= payload);
}

} // verus!
