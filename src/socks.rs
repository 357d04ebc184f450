//! SOCKS5 negotiation with the client, and the request that follows the
//! tunnel's password line.
use vstd::prelude::*;
use vstd::utf8::*;
use crate::codec::{
    AddrType, CmdType, Parsed, ParsedView, SocksVersion, Target, TargetView,
    address_wire, addr_type_byte, cmd_byte, decode_address, socks_addr_type, socks_read_address,
    socks_write_address, spec_addr_type, spec_cmd_type,
};

verus! {

broadcast use vstd::seq::group_seq_axioms;

/// The reply that selects "no authentication".
pub open spec fn handshake_reply() -> Seq<u8> {
    seq![5u8, 0u8]
}

/// The fixed success reply to a request: version, success, reserved, an
/// IPv4 tag, a zero address and a zero port.
pub open spec fn request_reply() -> Seq<u8> {
    seq![5u8, 0u8, 0u8, 1u8, 0u8, 0u8, 0u8, 0u8, 0u8, 0u8]
}

/// What the greeting at the front of `s` yields.
pub open spec fn parse_handshake(s: Seq<u8>) -> ParsedView<Seq<u8>> {
    if s.len() < 2 {
        ParsedView::Incomplete((2 - s.len()) as nat)
    } else if s[0] != 5 {
        ParsedView::Invalid
    } else if s.len() < 2 + s[1] {
        ParsedView::Incomplete((2 + s[1] - s.len()) as nat)
    } else if !(exists|i: int| 2 <= i < 2 + s[1] && s[i] == 0) {
        ParsedView::Invalid
    } else {
        ParsedView::Done(handshake_reply(), (2 + s[1]) as nat)
    }
}

/// What an address of tag byte `t`, for command byte `c`, at the front of
/// `s` yields, where `skip` bytes of header came before it.
pub open spec fn parse_command(c: u8, t: u8, s: Seq<u8>, skip: nat) -> ParsedView<
    (TargetView, CmdType),
> {
    if spec_cmd_type(c).is_none() || spec_addr_type(t).is_none() {
        ParsedView::Invalid
    } else {
        match decode_address(spec_addr_type(t).unwrap(), s) {
            ParsedView::Incomplete(k) => ParsedView::Incomplete(k),
            ParsedView::Invalid => ParsedView::Invalid,
            ParsedView::Done((a, p), n) => ParsedView::Done(
                (TargetView { addr: a, port: p }, spec_cmd_type(c).unwrap()),
                n + skip,
            ),
        }
    }
}

/// What the SOCKS5 request at the front of `s` yields.
pub open spec fn parse_request(s: Seq<u8>) -> ParsedView<(TargetView, CmdType)> {
    if s.len() < 4 {
        ParsedView::Incomplete((4 - s.len()) as nat)
    } else if s[0] != 5 || s[2] != 0 {
        ParsedView::Invalid
    } else {
        parse_command(s[1], s[3], s.subrange(4, s.len() as int), 4)
    }
}

/// What the tunnel request (command byte, tag byte, address) at the front
/// of `s` yields.
pub open spec fn parse_tunnel_request(s: Seq<u8>) -> ParsedView<(TargetView, CmdType)> {
    if s.len() < 2 {
        ParsedView::Incomplete((2 - s.len()) as nat)
    } else {
        parse_command(s[0], s[1], s.subrange(2, s.len() as int), 2)
    }
}

/// The line that opens a tunnel: the password and CR LF.
pub open spec fn auth_line(password: Seq<u8>) -> Seq<u8> {
    password + seq![13u8, 10u8]
}

/// The header that the ingress sends first on a tunnel.
pub open spec fn tunnel_header_bytes(password: Seq<u8>, t: TargetView, c: CmdType) -> Seq<u8> {
    auth_line(password) + seq![cmd_byte(c), addr_type_byte(t.addr.addr_type())] + address_wire(
        t.addr,
        t.port,
    )
}

fn slice_from(s: &[u8], from: usize) -> (r: &[u8])
    requires
        from <= s@.len(),
    ensures
        r@ == s@.subrange(from as int, s@.len() as int),
{
    vstd::slice::slice_subrange(s, from, s.len())
}

/// Reads the client's greeting at the front of `input`. On success the
/// result holds the reply to send.
pub fn socks_handshake(input: &[u8]) -> (r: Parsed<Vec<u8>>)
    ensures
        r@ == parse_handshake(input@),
{
    if input.len() < 2 {
        return Parsed::Incomplete(2 - input.len());
    }
    if SocksVersion::from_u8(input[0]).is_none() {
        return Parsed::Invalid;
    }
    let n: usize = input[1] as usize;
    if input.len() < 2 + n {
        return Parsed::Incomplete(2 + n - input.len());
    }
    let mut i: usize = 2;
    let mut found = false;
    while i < 2 + n
        invariant
            2 <= i <= 2 + n <= input@.len(),
            n == input@[1],
            found == (exists|j: int| 2 <= j < i && input@[j] == 0),
        decreases 2 + n - i,
    {
        if input[i] == 0 {
            found = true;
        }
        i = i + 1;
    }
    if !found {
        return Parsed::Invalid;
    }
    let reply: Vec<u8> = vec![SocksVersion::V5.as_u8(), 0u8];
    assert(reply@ =~= handshake_reply());
    Parsed::Done(reply, 2 + n)
}

fn read_command(c: u8, t: u8, rest: &[u8], skip: usize) -> (r: Parsed<(Target, CmdType)>)
    requires
        skip <= 4,
        rest@.len() + skip <= usize::MAX,
    ensures
        r@ == parse_command(c, t, rest@, skip as nat),
        r matches Parsed::Done((target, _), _) ==> target.addr@.valid(),
{
    let cmd = match CmdType::from_u8(c) {
        Some(cmd) => cmd,
        None => return Parsed::Invalid,
    };
    let addr_type = match AddrType::from_u8(t) {
        Some(a) => a,
        None => return Parsed::Invalid,
    };
    match socks_read_address(addr_type, rest) {
        Parsed::Incomplete(k) => Parsed::Incomplete(k),
        Parsed::Invalid => Parsed::Invalid,
        Parsed::Done((addr, port), n) => Parsed::Done((Target { addr, port }, cmd), n + skip),
    }
}

/// Reads the client's request at the front of `input`, the greeting
/// being done. On success the result holds the target, the command and
/// the bytes taken; `socks_request_reply` is then the answer.
pub fn socks_request(input: &[u8]) -> (r: Parsed<(Target, CmdType)>)
    ensures
        r@ == parse_request(input@),
        r matches Parsed::Done((target, _), _) ==> target.addr@.valid(),
{
    if input.len() < 4 {
        return Parsed::Incomplete(4 - input.len());
    }
    if input[0] != 5 || input[2] != 0 {
        return Parsed::Invalid;
    }
    read_command(input[1], input[3], slice_from(input, 4), 4)
}

/// The reply sent once a request is read, whatever becomes of the
/// connection.
pub fn socks_request_reply() -> (r: Vec<u8>)
    ensures
        r@ == request_reply(),
{
    let r: Vec<u8> = vec![5u8, 0u8, 0u8, 1u8, 0u8, 0u8, 0u8, 0u8, 0u8, 0u8];
    assert(r@ =~= request_reply());
    r
}

/// Reads the request that follows the password line on a tunnel: a
/// command byte, a tag byte and the address.
pub fn tunnel_request(input: &[u8]) -> (r: Parsed<(Target, CmdType)>)
    ensures
        r@ == parse_tunnel_request(input@),
        r matches Parsed::Done((target, _), _) ==> target.addr@.valid(),
{
    if input.len() < 2 {
        return Parsed::Incomplete(2 - input.len());
    }
    read_command(input[0], input[1], slice_from(input, 2), 2)
}

/// The header that opens a tunnel to `target` for a connect: the
/// password, CR LF, the command, the tag and the address.
pub fn tunnel_header(password: &str, target: &Target) -> (r: Vec<u8>)
    requires
        target.addr@.valid(),
    ensures
        r@ == tunnel_header_bytes(encode_utf8(password@), target@, CmdType::Connect),
{
    let bytes = password.as_bytes();
    let mut out: Vec<u8> = Vec::new();
    let mut i: usize = 0;
    while i < bytes.len()
        invariant
            i <= bytes@.len(),
            out@ == bytes@.subrange(0, i as int),
        decreases bytes@.len() - i,
    {
        out.push(bytes[i]);
        i = i + 1;
    }
    out.push(13u8);
    out.push(10u8);
    out.push(CmdType::Connect.as_u8());
    out.push(socks_addr_type(&target.addr).as_u8());
    socks_write_address(&mut out, &target.addr, target.port);
    assert(out@ =~= tunnel_header_bytes(encode_utf8(password@), target@, CmdType::Connect));
    out
}

/// What the ingress sends first on a tunnel is what the egress expects:
/// it opens with the password line, and the rest reads back as the same
/// target and a connect, whatever follows it.
pub proof fn lemma_tunnel_header_round_trip(password: Seq<u8>, t: TargetView, rest: Seq<u8>)
    requires
        t.addr.valid(),
    ensures
        ({
            let h = tunnel_header_bytes(password, t, CmdType::Connect);
            let line = auth_line(password);
            &&& h.take(line.len() as int) == line
            &&& parse_tunnel_request(h.skip(line.len() as int) + rest) == ParsedView::Done(
                (t, CmdType::Connect),
                (h.len() - line.len()) as nat,
            )
        }),
{
    let h = tunnel_header_bytes(password, t, CmdType::Connect);
    let line = auth_line(password);
    let w = address_wire(t.addr, t.port);
    let s = h.skip(line.len() as int) + rest;
    assert(h.take(line.len() as int) =~= line);
    assert(s.subrange(2, s.len() as int) =~= w + rest);
    crate::codec::lemma_address_round_trip(t.addr, t.port, rest);
    assert(s[0] == cmd_byte(CmdType::Connect));
    assert(s[1] == addr_type_byte(t.addr.addr_type()));
}

} // verus!
