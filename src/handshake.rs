//! The connect handshake: token, delimiter, command, address, port, delimiter.
use vstd::prelude::*;
use vstd::utf8::*;
use vstd::string::*;

verus! {

/// Length of the authentication token on the wire (hex of a 28-byte digest).
pub const TOKEN_LEN: usize = 56;

pub const COMMAND_CONNECT: u8 = 1;

/// A second command code that one protocol revision treats as a connect.
pub const COMMAND_CONNECT_ALT: u8 = 3;

pub const ADDRESS_IPV4: u8 = 1;

pub const ADDRESS_DOMAIN: u8 = 3;

pub const ADDRESS_IPV6: u8 = 4;

pub const CR: u8 = 0x0D;

pub const LF: u8 = 0x0A;

#[derive(Debug, Clone, Copy, PartialEq, Eq, Structural)]
pub enum HandshakeError {
    AuthenticationFailed,
    UnsupportedCommand,
    UnknownAddressType,
    MalformedAddress,
    TruncatedHandshake,
    /// A delimiter other than CR LF, seen only under strict delimiters.
    BadDelimiter,
    /// The far end acknowledged with something other than CR LF.
    HandshakeRejected,
}

/// Which protocol variant a decoder follows.
#[derive(Debug, Clone, Copy, PartialEq, Eq, Structural)]
pub struct Profile {
    /// Reject delimiters other than CR LF instead of skipping them.
    pub strict_delimiters: bool,
    /// Also accept `COMMAND_CONNECT_ALT` as a connect.
    pub accept_alt_command: bool,
}

impl Profile {
    pub open spec fn lean_spec() -> Profile {
        Profile { strict_delimiters: false, accept_alt_command: false }
    }

    /// The lean revision: delimiters skipped, command 1 only.
    pub fn lean() -> (r: Profile)
        ensures
            r == Profile::lean_spec(),
    {
        Profile { strict_delimiters: false, accept_alt_command: false }
    }
}

#[derive(Debug, Clone, PartialEq, Eq)]
pub enum Address {
    Ipv4([u8; 4]),
    Ipv6([u8; 16]),
    Domain(String),
}

pub enum AddressView {
    Ipv4(Seq<u8>),
    Ipv6(Seq<u8>),
    Domain(Seq<char>),
}

impl View for Address {
    type V = AddressView;

    open spec fn view(&self) -> AddressView {
        match self {
            Address::Ipv4(o) => AddressView::Ipv4(o@),
            Address::Ipv6(o) => AddressView::Ipv6(o@),
            Address::Domain(s) => AddressView::Domain(s@),
        }
    }
}

#[derive(Debug, Clone, PartialEq, Eq)]
pub struct ConnectRequest {
    pub address: Address,
    pub port: u16,
}

pub struct RequestView {
    pub address: AddressView,
    pub port: u16,
}

impl View for ConnectRequest {
    type V = RequestView;

    open spec fn view(&self) -> RequestView {
        RequestView { address: self.address@, port: self.port }
    }
}

pub open spec fn crlf() -> Seq<u8> {
    seq![CR, LF]
}

pub open spec fn port_bytes(p: u16) -> Seq<u8> {
    seq![(p / 256) as u8, (p % 256) as u8]
}

pub open spec fn address_code(a: AddressView) -> u8 {
    match a {
        AddressView::Ipv4(_) => ADDRESS_IPV4,
        AddressView::Ipv6(_) => ADDRESS_IPV6,
        AddressView::Domain(_) => ADDRESS_DOMAIN,
    }
}

/// The address as it follows its type code: raw octets, or a length byte and UTF-8.
pub open spec fn address_bytes(a: AddressView) -> Seq<u8> {
    match a {
        AddressView::Ipv4(o) => o,
        AddressView::Ipv6(o) => o,
        AddressView::Domain(s) => seq![encode_utf8(s).len() as u8] + encode_utf8(s),
    }
}

/// An address that fits the frame: 4 or 16 octets, a domain of at most 255 bytes.
pub open spec fn encodable(a: AddressView) -> bool {
    match a {
        AddressView::Ipv4(o) => o.len() == 4,
        AddressView::Ipv6(o) => o.len() == 16,
        AddressView::Domain(s) => encode_utf8(s).len() <= 255,
    }
}

/// The frame that a client sends for a request.
pub open spec fn frame(token: Seq<u8>, r: RequestView) -> Seq<u8> {
    token + crlf() + seq![COMMAND_CONNECT, address_code(r.address)] + address_bytes(r.address)
        + port_bytes(r.port) + crlf()
}

pub open spec fn command_accepted(p: Profile, c: u8) -> bool {
    c == COMMAND_CONNECT || (p.accept_alt_command && c == COMMAND_CONNECT_ALT)
}

pub open spec fn known_address_code(c: u8) -> bool {
    c == ADDRESS_IPV4 || c == ADDRESS_DOMAIN || c == ADDRESS_IPV6
}

pub open spec fn delimiter_ok(p: Profile, d: Seq<u8>, i: int) -> bool {
    !p.strict_delimiters || (d[i] == CR && d[i + 1] == LF)
}

/// Bytes taken by an address of type `c` starting at `a` (a domain's length byte included).
pub open spec fn address_span(c: u8, d: Seq<u8>, a: int) -> int {
    if c == ADDRESS_IPV4 {
        4
    } else if c == ADDRESS_IPV6 {
        16
    } else {
        1 + d[a]
    }
}

pub open spec fn address_at(c: u8, d: Seq<u8>, a: int) -> AddressView {
    if c == ADDRESS_IPV4 {
        AddressView::Ipv4(d.subrange(a, a + 4))
    } else if c == ADDRESS_IPV6 {
        AddressView::Ipv6(d.subrange(a, a + 16))
    } else {
        AddressView::Domain(decode_utf8(d.subrange(a + 1, a + 1 + d[a])))
    }
}

/// What a decoder makes of the bytes `d` available so far: the request and
/// the number of bytes it took, or the first failure that reading them in
/// order meets. `TruncatedHandshake` is the answer wherever a step needs
/// bytes beyond `d`. The token field is always `TOKEN_LEN` bytes, so an
/// expected token of any other length matches no frame.
pub open spec fn decode(p: Profile, token: Seq<u8>, d: Seq<u8>) -> Result<(RequestView, int), HandshakeError> {
    let n = TOKEN_LEN as int;
    if d.len() < n {
        Err(HandshakeError::TruncatedHandshake)
    } else if d.subrange(0, n) != token {
        Err(HandshakeError::AuthenticationFailed)
    } else if d.len() < n + 2 {
        Err(HandshakeError::TruncatedHandshake)
    } else if !delimiter_ok(p, d, n) {
        Err(HandshakeError::BadDelimiter)
    } else if d.len() < n + 3 {
        Err(HandshakeError::TruncatedHandshake)
    } else if !command_accepted(p, d[n + 2]) {
        Err(HandshakeError::UnsupportedCommand)
    } else if d.len() < n + 4 {
        Err(HandshakeError::TruncatedHandshake)
    } else if !known_address_code(d[n + 3]) {
        Err(HandshakeError::UnknownAddressType)
    } else if d[n + 3] == ADDRESS_DOMAIN && d.len() < n + 5 {
        Err(HandshakeError::TruncatedHandshake)
    } else if d.len() < n + 4 + address_span(d[n + 3], d, n + 4) {
        Err(HandshakeError::TruncatedHandshake)
    } else if d[n + 3] == ADDRESS_DOMAIN && !valid_utf8(
        d.subrange(n + 5, n + 4 + address_span(d[n + 3], d, n + 4)),
    ) {
        Err(HandshakeError::MalformedAddress)
    } else if d.len() < n + 8 + address_span(d[n + 3], d, n + 4) {
        Err(HandshakeError::TruncatedHandshake)
    } else if !delimiter_ok(p, d, n + 6 + address_span(d[n + 3], d, n + 4)) {
        Err(HandshakeError::BadDelimiter)
    } else {
        let e = n + 4 + address_span(d[n + 3], d, n + 4);
        Ok(
            (
                RequestView {
                    address: address_at(d[n + 3], d, n + 4),
                    port: (d[e] * 256 + d[e + 1]) as u16,
                },
                e + 4,
            ),
        )
    }
}

/// Relies on `String::from_utf8`: it succeeds exactly on valid UTF-8 and decodes it.
#[verifier::external_body]
fn utf8_string(bytes: Vec<u8>) -> (r: Option<String>)
    ensures
        r is Some <==> valid_utf8(bytes@),
        r matches Some(s) ==> s@ == decode_utf8(bytes@),
{
    String::from_utf8(bytes).ok()
}

fn starts_with(data: &[u8], token: &[u8]) -> (r: bool)
    requires
        token@.len() <= data@.len(),
    ensures
        r == (data@.subrange(0, token@.len() as int) == token@),
{
    let mut i: usize = 0;
    while i < token.len()
        invariant
            token@.len() <= data@.len(),
            i <= token@.len(),
            forall|k: int| 0 <= k < i ==> data@[k] == token@[k],
        decreases token@.len() - i,
    {
        if data[i] != token[i] {
            assert(data@.subrange(0, token@.len() as int)[i as int] != token@[i as int]);
            return false;
        }
        i = i + 1;
    }
    assert(data@.subrange(0, token@.len() as int) =~= token@);
    true
}

fn copy_range(data: &[u8], start: usize, end: usize) -> (r: Vec<u8>)
    requires
        start <= end <= data@.len(),
    ensures
        r@ == data@.subrange(start as int, end as int),
{
    let mut out: Vec<u8> = Vec::new();
    let mut i: usize = start;
    while i < end
        invariant
            start <= i <= end <= data@.len(),
            out@ == data@.subrange(start as int, i as int),
        decreases end - i,
    {
        out.push(data[i]);
        i = i + 1;
        assert(out@ =~= data@.subrange(start as int, i as int));
    }
    out
}

/// Decodes a handshake from the bytes received so far, under a protocol profile.
pub fn parse_with(profile: Profile, pw_hash: &Vec<u8>, data: &[u8]) -> (r: Result<
    (ConnectRequest, usize),
    HandshakeError,
>)
    ensures
        match r {
            Ok((req, used)) => decode(profile, pw_hash@, data@) == Ok::<(RequestView, int), HandshakeError>((req@, used as int)),
            Err(e) => decode(profile, pw_hash@, data@) == Err::<(RequestView, int), HandshakeError>(e),
        },
{
    let ghost d = data@;
    let n = TOKEN_LEN;
    if data.len() < n {
        return Err(HandshakeError::TruncatedHandshake);
    }
    if pw_hash.len() != n {
        assert(d.subrange(0, n as int).len() != pw_hash@.len());
        return Err(HandshakeError::AuthenticationFailed);
    }
    if !starts_with(data, pw_hash.as_slice()) {
        return Err(HandshakeError::AuthenticationFailed);
    }
    let rest = data.len() - n;
    if rest < 2 {
        return Err(HandshakeError::TruncatedHandshake);
    }
    if profile.strict_delimiters && !(data[n] == CR && data[n + 1] == LF) {
        return Err(HandshakeError::BadDelimiter);
    }
    if rest < 3 {
        return Err(HandshakeError::TruncatedHandshake);
    }
    let cmd = data[n + 2];
    if !(cmd == COMMAND_CONNECT || (profile.accept_alt_command && cmd == COMMAND_CONNECT_ALT)) {
        return Err(HandshakeError::UnsupportedCommand);
    }
    if rest < 4 {
        return Err(HandshakeError::TruncatedHandshake);
    }
    let code = data[n + 3];
    if !(code == ADDRESS_IPV4 || code == ADDRESS_DOMAIN || code == ADDRESS_IPV6) {
        return Err(HandshakeError::UnknownAddressType);
    }
    if code == ADDRESS_DOMAIN && rest < 5 {
        return Err(HandshakeError::TruncatedHandshake);
    }
    let span: usize = if code == ADDRESS_IPV4 {
        4
    } else if code == ADDRESS_IPV6 {
        16
    } else {
        1 + data[n + 4] as usize
    };
    assert(span == address_span(code, d, n + 4));
    if rest - 4 < span {
        return Err(HandshakeError::TruncatedHandshake);
    }
    let a = n + 4;
    let address = if code == ADDRESS_IPV4 {
        let o = [data[a], data[a + 1], data[a + 2], data[a + 3]];
        assert(o@ =~= d.subrange(a as int, a + 4));
        Address::Ipv4(o)
    } else if code == ADDRESS_IPV6 {
        let o = [
            data[a], data[a + 1], data[a + 2], data[a + 3],
            data[a + 4], data[a + 5], data[a + 6], data[a + 7],
            data[a + 8], data[a + 9], data[a + 10], data[a + 11],
            data[a + 12], data[a + 13], data[a + 14], data[a + 15],
        ];
        assert(o@ =~= d.subrange(a as int, a + 16));
        Address::Ipv6(o)
    } else {
        let raw = copy_range(data, a + 1, a + span);
        match utf8_string(raw) {
            Some(s) => Address::Domain(s),
            None => {
                return Err(HandshakeError::MalformedAddress);
            },
        }
    };
    if rest - 4 - span < 4 {
        return Err(HandshakeError::TruncatedHandshake);
    }
    let e = a + span;
    if profile.strict_delimiters && !(data[e + 2] == CR && data[e + 3] == LF) {
        return Err(HandshakeError::BadDelimiter);
    }
    let port = (data[e] as u16) * 256 + data[e + 1] as u16;
    Ok((ConnectRequest { address, port }, e + 4))
}

/// Decodes a handshake under the lean profile.
pub fn parse(pw_hash: &Vec<u8>, data: &[u8]) -> (r: Result<(ConnectRequest, usize), HandshakeError>)
    ensures
        match r {
            Ok((req, used)) => decode(Profile::lean_spec(), pw_hash@, data@) == Ok::<(RequestView, int), HandshakeError>((req@, used as int)),
            Err(e) => decode(Profile::lean_spec(), pw_hash@, data@) == Err::<(RequestView, int), HandshakeError>(e),
        },
{
    parse_with(Profile::lean(), pw_hash, data)
}


fn push_all(out: &mut Vec<u8>, src: &[u8])
    ensures
        final(out)@ == old(out)@ + src@,
{
    let mut i: usize = 0;
    while i < src.len()
        invariant
            i <= src@.len(),
            out@ == old(out)@ + src@.subrange(0, i as int),
        decreases src@.len() - i,
    {
        out.push(src[i]);
        i = i + 1;
        assert(out@ =~= old(out)@ + src@.subrange(0, i as int));
    }
    assert(src@.subrange(0, i as int) =~= src@);
}

/// Builds the frame a client sends, from an already derived token. A domain
/// longer than 255 bytes does not fit its length byte and is refused.
pub fn encode_with_token(token: &[u8], request: &ConnectRequest) -> (r: Result<Vec<u8>, HandshakeError>)
    ensures
        r is Ok <==> encodable(request@.address),
        r matches Ok(v) ==> v@ == frame(token@, request@),
        r matches Err(e) ==> e == HandshakeError::MalformedAddress,
{
    let mut out: Vec<u8> = Vec::new();
    push_all(&mut out, token);
    out.push(CR);
    out.push(LF);
    out.push(COMMAND_CONNECT);
    match &request.address {
        Address::Ipv4(o) => {
            out.push(ADDRESS_IPV4);
            push_all(&mut out, o.as_slice());
        },
        Address::Ipv6(o) => {
            out.push(ADDRESS_IPV6);
            push_all(&mut out, o.as_slice());
        },
        Address::Domain(s) => {
            let b = s.as_str().as_bytes();
            if b.len() > 255 {
                return Err(HandshakeError::MalformedAddress);
            }
            out.push(ADDRESS_DOMAIN);
            out.push(b.len() as u8);
            push_all(&mut out, b);
        },
    }
    let port = request.port;
    out.push((port / 256) as u8);
    out.push((port % 256) as u8);
    out.push(CR);
    out.push(LF);
    assert(out@ =~= frame(token@, request@));
    Ok(out)
}

/// Checks the far end's two-byte acknowledgment of a handshake.
pub fn check_ack(ack: &[u8]) -> (r: Result<(), HandshakeError>)
    ensures
        r is Ok <==> ack@ == crlf(),
        r matches Err(e) ==> e == HandshakeError::HandshakeRejected,
{
    if ack.len() == 2 && ack[0] == CR && ack[1] == LF {
        assert(ack@ =~= crlf());
        Ok(())
    } else {
        Err(HandshakeError::HandshakeRejected)
    }
}

/// A frame built for a request decodes, under every profile, to that same
/// request, and takes exactly the frame's bytes whatever follows it.
pub proof fn lemma_round_trip(p: Profile, token: Seq<u8>, r: RequestView, tail: Seq<u8>)
    requires
        token.len() == TOKEN_LEN,
        encodable(r.address),
    ensures
        decode(p, token, frame(token, r) + tail) == Ok::<(RequestView, int), HandshakeError>(
            (r, frame(token, r).len() as int),
        ),
{
    let d = frame(token, r) + tail;
    let n = TOKEN_LEN as int;
    let ab = address_bytes(r.address);
    let m = ab.len() as int;
    assert(frame(token, r).len() == n + 8 + m);
    assert(d.subrange(0, n) =~= token);
    assert(d[n] == CR && d[n + 1] == LF);
    assert(d[n + 2] == COMMAND_CONNECT);
    assert(d[n + 3] == address_code(r.address));
    assert forall|k: int| 0 <= k < m implies d[n + 4 + k] == ab[k] by {}
    let c = d[n + 3];
    match r.address {
        AddressView::Ipv4(o) => {
            assert(d.subrange(n + 4, n + 8) =~= o);
        },
        AddressView::Ipv6(o) => {
            assert(d.subrange(n + 4, n + 20) =~= o);
        },
        AddressView::Domain(s) => {
            let bs = encode_utf8(s);
            assert(ab[0] == bs.len() as u8);
            assert(d[n + 4] == bs.len());
            assert(d.subrange(n + 5, n + 5 + bs.len()) =~= bs);
            encode_utf8_valid_utf8(s);
            encode_utf8_decode_utf8(s);
        },
    }
    assert(address_span(c, d, n + 4) == m);
    let e = n + 4 + m;
    let pt = r.port;
    assert(d[e] == (pt / 256) as u8 && d[e + 1] == (pt % 256) as u8);
    assert(d[e + 2] == CR && d[e + 3] == LF);
    assert((((pt / 256) as u8) * 256 + ((pt % 256) as u8)) as u16 == pt) by (nonlinear_arith);
}

/// A token that differs from the expected one in any single byte is refused,
/// whatever follows it.
pub proof fn lemma_wrong_token(p: Profile, token: Seq<u8>, d: Seq<u8>, i: int)
    requires
        token.len() == TOKEN_LEN,
        0 <= i < TOKEN_LEN,
        TOKEN_LEN <= d.len(),
        d[i] != token[i],
    ensures
        decode(p, token, d) == Err::<(RequestView, int), HandshakeError>(HandshakeError::AuthenticationFailed),
{
    assert(d.subrange(0, TOKEN_LEN as int)[i] != token[i]);
}

/// An expected token that is not `TOKEN_LEN` bytes long lets no frame through.
pub proof fn lemma_token_length(p: Profile, token: Seq<u8>, d: Seq<u8>)
    requires
        token.len() != TOKEN_LEN,
    ensures
        decode(p, token, d) is Err,
{
    if d.len() >= TOKEN_LEN {
        assert(d.subrange(0, TOKEN_LEN as int).len() != token.len());
    }
}

/// A domain whose length byte promises more bytes than follow is a truncated
/// handshake, whatever the delimiter where the profile does not check it.
pub proof fn lemma_short_domain(
    p: Profile,
    token: Seq<u8>,
    delim: Seq<u8>,
    command: u8,
    len: u8,
    rest: Seq<u8>,
)
    requires
        token.len() == TOKEN_LEN,
        delim.len() == 2,
        p.strict_delimiters ==> delim == crlf(),
        command_accepted(p, command),
        rest.len() < len,
    ensures
        decode(p, token, token + delim + seq![command, ADDRESS_DOMAIN, len] + rest)
            == Err::<(RequestView, int), HandshakeError>(HandshakeError::TruncatedHandshake),
{
    let d = token + delim + seq![command, ADDRESS_DOMAIN, len] + rest;
    let n = TOKEN_LEN as int;
    assert(d.subrange(0, n) =~= token);
    assert(d[n] == delim[0] && d[n + 1] == delim[1]);
    assert(d[n + 2] == command && d[n + 3] == ADDRESS_DOMAIN && d[n + 4] == len);
}

/// An address type other than IPv4, domain or IPv6 is refused, whatever the
/// delimiter where the profile does not check it.
pub proof fn lemma_unknown_address_type(
    p: Profile,
    token: Seq<u8>,
    delim: Seq<u8>,
    command: u8,
    code: u8,
    rest: Seq<u8>,
)
    requires
        token.len() == TOKEN_LEN,
        delim.len() == 2,
        p.strict_delimiters ==> delim == crlf(),
        command_accepted(p, command),
        !known_address_code(code),
    ensures
        decode(p, token, token + delim + seq![command, code] + rest)
            == Err::<(RequestView, int), HandshakeError>(HandshakeError::UnknownAddressType),
{
    let d = token + delim + seq![command, code] + rest;
    let n = TOKEN_LEN as int;
    assert(d.subrange(0, n) =~= token);
    assert(d[n] == delim[0] && d[n + 1] == delim[1]);
    assert(d[n + 2] == command && d[n + 3] == code);
}

/// Reading more bytes changes nothing once the bytes at hand decide the
/// handshake: a decoded request, or any failure but truncation, stays as it is.
pub proof fn lemma_decided_prefix(p: Profile, token: Seq<u8>, d: Seq<u8>, more: Seq<u8>)
    requires
        decode(p, token, d) != Err::<(RequestView, int), HandshakeError>(HandshakeError::TruncatedHandshake),
    ensures
        decode(p, token, d + more) == decode(p, token, d),
{
    let e = d + more;
    let n = TOKEN_LEN as int;
    assert forall|i: int| 0 <= i < d.len() implies e[i] == d[i] by {}
    if d.len() >= n {
        assert(e.subrange(0, n) =~= d.subrange(0, n));
    }
    if d.len() >= n + 5 {
        let c = d[n + 3];
        let span = address_span(c, d, n + 4);
        assert(address_span(c, e, n + 4) == span);
        if d.len() >= n + 4 + span {
            assert(e.subrange(n + 4, n + 4 + span) =~= d.subrange(n + 4, n + 4 + span));
            assert(e.subrange(n + 5, n + 4 + span) =~= d.subrange(n + 5, n + 4 + span));
            if c == ADDRESS_IPV4 {
                assert(e.subrange(n + 4, n + 8) =~= d.subrange(n + 4, n + 8));
            } else if c == ADDRESS_IPV6 {
                assert(e.subrange(n + 4, n + 20) =~= d.subrange(n + 4, n + 20));
            }
            assert(address_at(c, e, n + 4) == address_at(c, d, n + 4));
        }
    }
}

} // verus!
