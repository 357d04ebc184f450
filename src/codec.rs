//! The SOCKS5 address encoding and the protocol's one-byte enums.
use vstd::prelude::*;
use vstd::utf8::*;

verus! {

broadcast use vstd::seq::group_seq_axioms;

/// The only SOCKS version spoken.
#[derive(Clone, Copy, Debug, PartialEq, Eq)]
pub enum SocksVersion {
    V5,
}

/// The reserved byte of a SOCKS5 request, which must be zero.
#[derive(Clone, Copy, Debug, PartialEq, Eq)]
pub enum Reserved {
    ZeroByte,
}

/// The command of a request: only `Connect` is carried out.
#[derive(Clone, Copy, Debug, PartialEq, Eq)]
pub enum CmdType {
    Connect,
    UdpAssociate,
}

/// The wire tag of an address.
#[derive(Clone, Copy, Debug, PartialEq, Eq)]
pub enum AddrType {
    IPv4,
    DomainName,
}

/// An address as it travels on the wire.
#[derive(Clone, Debug, PartialEq, Eq)]
pub enum AddrData {
    IPv4([u8; 4]),
    DomainName(String),
}

/// The mathematical value of an address.
pub ghost enum AddrView {
    IPv4(Seq<u8>),
    DomainName(Seq<char>),
}

/// A destination: an address and a port.
#[derive(Clone, Debug, PartialEq, Eq)]
pub struct Target {
    pub addr: AddrData,
    pub port: u16,
}

pub ghost struct TargetView {
    pub addr: AddrView,
    pub port: u16,
}

/// The outcome of parsing a prefix of a byte stream.
#[derive(Clone, Debug, PartialEq, Eq)]
pub enum Parsed<T> {
    /// At least this many more bytes must arrive before a decision.
    Incomplete(usize),
    /// The bytes break the protocol.
    Invalid,
    /// A value, and the number of bytes it took.
    Done(T, usize),
}

pub ghost enum ParsedView<V> {
    Incomplete(nat),
    Invalid,
    Done(V, nat),
}

impl View for SocksVersion {
    type V = SocksVersion;

    open spec fn view(&self) -> SocksVersion {
        *self
    }
}

impl View for CmdType {
    type V = CmdType;

    open spec fn view(&self) -> CmdType {
        *self
    }
}

impl View for AddrType {
    type V = AddrType;

    open spec fn view(&self) -> AddrType {
        *self
    }
}

impl View for AddrData {
    type V = AddrView;

    open spec fn view(&self) -> AddrView {
        match self {
            AddrData::IPv4(ip) => AddrView::IPv4(ip@),
            AddrData::DomainName(name) => AddrView::DomainName(name@),
        }
    }
}

impl View for Target {
    type V = TargetView;

    open spec fn view(&self) -> TargetView {
        TargetView { addr: self.addr@, port: self.port }
    }
}

impl<T: View> View for Parsed<T> {
    type V = ParsedView<T::V>;

    open spec fn view(&self) -> ParsedView<T::V> {
        match self {
            Parsed::Incomplete(k) => ParsedView::Incomplete(*k as nat),
            Parsed::Invalid => ParsedView::Invalid,
            Parsed::Done(v, n) => ParsedView::Done(v@, *n as nat),
        }
    }
}

pub open spec fn spec_cmd_type(b: u8) -> Option<CmdType> {
    if b == 1 {
        Some(CmdType::Connect)
    } else if b == 3 {
        Some(CmdType::UdpAssociate)
    } else {
        None
    }
}

pub open spec fn cmd_byte(c: CmdType) -> u8 {
    match c {
        CmdType::Connect => 1,
        CmdType::UdpAssociate => 3,
    }
}

pub open spec fn spec_addr_type(b: u8) -> Option<AddrType> {
    if b == 1 {
        Some(AddrType::IPv4)
    } else if b == 3 {
        Some(AddrType::DomainName)
    } else {
        None
    }
}

pub open spec fn addr_type_byte(t: AddrType) -> u8 {
    match t {
        AddrType::IPv4 => 1,
        AddrType::DomainName => 3,
    }
}

impl SocksVersion {
    pub fn from_u8(b: u8) -> (r: Option<SocksVersion>)
        ensures
            r == (if b == 5 { Some(SocksVersion::V5) } else { None }),
    {
        if b == 5 {
            Some(SocksVersion::V5)
        } else {
            None
        }
    }

    pub fn as_u8(self) -> (r: u8)
        ensures
            r == 5,
    {
        5
    }
}

impl Reserved {
    pub fn from_u8(b: u8) -> (r: Option<Reserved>)
        ensures
            r == (if b == 0 { Some(Reserved::ZeroByte) } else { None }),
    {
        if b == 0 {
            Some(Reserved::ZeroByte)
        } else {
            None
        }
    }
}

impl CmdType {
    pub fn from_u8(b: u8) -> (r: Option<CmdType>)
        ensures
            r == spec_cmd_type(b),
    {
        if b == 1 {
            Some(CmdType::Connect)
        } else if b == 3 {
            Some(CmdType::UdpAssociate)
        } else {
            None
        }
    }

    pub fn as_u8(self) -> (r: u8)
        ensures
            r == cmd_byte(self),
            spec_cmd_type(r) == Some(self),
    {
        match self {
            CmdType::Connect => 1,
            CmdType::UdpAssociate => 3,
        }
    }
}

impl AddrType {
    pub fn from_u8(b: u8) -> (r: Option<AddrType>)
        ensures
            r == spec_addr_type(b),
    {
        if b == 1 {
            Some(AddrType::IPv4)
        } else if b == 3 {
            Some(AddrType::DomainName)
        } else {
            None
        }
    }

    pub fn as_u8(self) -> (r: u8)
        ensures
            r == addr_type_byte(self),
            spec_addr_type(r) == Some(self),
    {
        match self {
            AddrType::IPv4 => 1,
            AddrType::DomainName => 3,
        }
    }
}

impl AddrView {
    /// The wire tag of this address.
    pub open spec fn addr_type(self) -> AddrType {
        match self {
            AddrView::IPv4(_) => AddrType::IPv4,
            AddrView::DomainName(_) => AddrType::DomainName,
        }
    }

    /// An address fits the wire format: four bytes, or a name whose
    /// UTF-8 encoding fits a one-byte length.
    pub open spec fn valid(self) -> bool {
        match self {
            AddrView::IPv4(ip) => ip.len() == 4,
            AddrView::DomainName(name) => encode_utf8(name).len() <= 255,
        }
    }
}

/// A port in network byte order.
pub open spec fn port_bytes(port: u16) -> Seq<u8> {
    seq![(port / 256) as u8, (port % 256) as u8]
}

/// The port that two bytes in network byte order denote.
pub open spec fn port_of(hi: u8, lo: u8) -> u16 {
    (hi * 256 + lo) as u16
}

/// The SOCKS5 encoding of an address and a port, without the tag.
pub open spec fn address_wire(a: AddrView, port: u16) -> Seq<u8> {
    match a {
        AddrView::IPv4(ip) => ip + port_bytes(port),
        AddrView::DomainName(name) => seq![encode_utf8(name).len() as u8] + encode_utf8(name)
            + port_bytes(port),
    }
}

/// How many bytes the encoded address starting at `s` takes, as far as
/// the bytes at hand tell.
pub open spec fn address_len(t: AddrType, s: Seq<u8>) -> nat {
    match t {
        AddrType::IPv4 => 6,
        AddrType::DomainName => if s.len() == 0 {
            1
        } else {
            (s[0] + 3) as nat
        },
    }
}

/// What decoding an address of tag `t` at the front of `s` yields.
pub open spec fn decode_address(t: AddrType, s: Seq<u8>) -> ParsedView<(AddrView, u16)> {
    let need = address_len(t, s);
    if s.len() < need {
        ParsedView::Incomplete((need - s.len()) as nat)
    } else {
        match t {
            AddrType::IPv4 => ParsedView::Done(
                (AddrView::IPv4(s.subrange(0, 4)), port_of(s[4], s[5])),
                6,
            ),
            AddrType::DomainName => {
                let name = s.subrange(1, 1 + s[0]);
                if valid_utf8(name) {
                    ParsedView::Done(
                        (AddrView::DomainName(decode_utf8(name)), port_of(s[1 + s[0]], s[2 + s[0]])),
                        need,
                    )
                } else {
                    ParsedView::Invalid
                }
            },
        }
    }
}

/// Relies on std::str::from_utf8: it accepts exactly the valid UTF-8
/// byte strings and then holds the characters they encode.
#[verifier::external_body]
fn utf8_text(b: &[u8]) -> (r: Option<String>)
    ensures
        r.is_some() == valid_utf8(b@),
        r.is_some() ==> r.unwrap()@ == decode_utf8(b@),
{
    match std::str::from_utf8(b) {
        Ok(s) => Some(s.to_owned()),
        Err(_) => None,
    }
}

fn copy_range(s: &[u8], from: usize, to: usize) -> (r: Vec<u8>)
    requires
        from <= to <= s@.len(),
    ensures
        r@ == s@.subrange(from as int, to as int),
{
    let mut r: Vec<u8> = Vec::new();
    let mut i: usize = from;
    while i < to
        invariant
            from <= i <= to <= s@.len(),
            r@ == s@.subrange(from as int, i as int),
        decreases to - i,
    {
        r.push(s[i]);
        i = i + 1;
    }
    r
}

/// Decodes the address of tag `addr_type` at the front of `input`.
pub fn socks_read_address(addr_type: AddrType, input: &[u8]) -> (r: Parsed<(AddrData, u16)>)
    ensures
        r@ == decode_address(addr_type, input@),
        r matches Parsed::Done((a, _), _) ==> a@.valid(),
{
    match addr_type {
        AddrType::IPv4 => {
            if input.len() < 6 {
                return Parsed::Incomplete(6 - input.len());
            }
            let ip: [u8; 4] = [input[0], input[1], input[2], input[3]];
            let port: u16 = input[4] as u16 * 256 + input[5] as u16;
            assert(ip@ =~= input@.subrange(0, 4));
            Parsed::Done((AddrData::IPv4(ip), port), 6)
        },
        AddrType::DomainName => {
            if input.len() == 0 {
                return Parsed::Incomplete(1);
            }
            let n: usize = input[0] as usize;
            if input.len() < n + 3 {
                return Parsed::Incomplete(n + 3 - input.len());
            }
            let name_bytes = copy_range(input, 1, 1 + n);
            match utf8_text(name_bytes.as_slice()) {
                None => Parsed::Invalid,
                Some(name) => {
                    proof {
                        decode_utf8_encode_utf8(name_bytes@);
                    }
                    let port: u16 = input[1 + n] as u16 * 256 + input[2 + n] as u16;
                    Parsed::Done((AddrData::DomainName(name), port), n + 3)
                },
            }
        },
    }
}

/// The tag of an address.
pub fn socks_addr_type(data: &AddrData) -> (r: AddrType)
    ensures
        r == data@.addr_type(),
{
    match data {
        AddrData::DomainName(_) => AddrType::DomainName,
        AddrData::IPv4(_) => AddrType::IPv4,
    }
}

fn push_port(out: &mut Vec<u8>, port: u16)
    ensures
        final(out)@ == old(out)@ + port_bytes(port),
{
    out.push((port / 256) as u8);
    out.push((port % 256) as u8);
    assert(final(out)@ =~= old(out)@ + port_bytes(port));
}

/// Appends the encoding of an address and a port to `out`.
pub fn socks_write_address(out: &mut Vec<u8>, addr: &AddrData, port: u16)
    requires
        addr@.valid(),
    ensures
        final(out)@ == old(out)@ + address_wire(addr@, port),
{
    match addr {
        AddrData::IPv4(ip) => {
            out.push(ip[0]);
            out.push(ip[1]);
            out.push(ip[2]);
            out.push(ip[3]);
            assert(ip@ =~= seq![ip[0], ip[1], ip[2], ip[3]]);
        },
        AddrData::DomainName(name) => {
            let bytes = name.as_str().as_bytes();
            out.push(bytes.len() as u8);
            let mut i: usize = 0;
            let ghost start = out@;
            while i < bytes.len()
                invariant
                    i <= bytes@.len(),
                    out@ == start + bytes@.subrange(0, i as int),
                decreases bytes@.len() - i,
            {
                out.push(bytes[i]);
                i = i + 1;
            }
            assert(bytes@.subrange(0, bytes@.len() as int) =~= bytes@);
        },
    }
    push_port(out, port);
    assert(final(out)@ =~= old(out)@ + address_wire(addr@, port));
}

proof fn lemma_port_round_trip(port: u16)
    ensures
        port_of((port / 256) as u8, (port % 256) as u8) == port,
{
    assert(port / 256 < 256);
    assert((port / 256) * 256 + port % 256 == port);
}

/// Decoding the encoding of a valid address gives back the same address
/// and port, and takes exactly the encoded bytes, whatever follows them.
pub proof fn lemma_address_round_trip(a: AddrView, port: u16, rest: Seq<u8>)
    requires
        a.valid(),
    ensures
        decode_address(a.addr_type(), address_wire(a, port) + rest) == ParsedView::Done(
            (a, port),
            address_wire(a, port).len(),
        ),
{
    let s = address_wire(a, port) + rest;
    lemma_port_round_trip(port);
    match a {
        AddrView::IPv4(ip) => {
            assert(s.subrange(0, 4) =~= ip);
        },
        AddrView::DomainName(name) => {
            let e = encode_utf8(name);
            encode_utf8_valid_utf8(name);
            encode_utf8_decode_utf8(name);
            assert(s[0] == e.len());
            assert(s.subrange(1, 1 + s[0]) =~= e);
            assert(s[1 + s[0]] == (port / 256) as u8);
            assert(s[2 + s[0]] == (port % 256) as u8);
        },
    }
}

} // verus!
