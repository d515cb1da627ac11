//! The client side of the SOCKS5 handshake: method negotiation without
//! authentication, the CONNECT request, and the proxy's reply.
//!
//! Nothing here touches a socket. The bytes to write are built here and
//! the bytes that were read are judged here; `Handshake` strings the
//! steps together so that a caller only has to move bytes.

use vstd::pervasive::unreached;
use vstd::prelude::*;
use vstd::string::*;
use vstd::utf8::encode_utf8;

verus! {

/// Why a handshake did not produce a connection.
#[derive(Debug, Clone, PartialEq, Eq)]
pub enum Socks5Error {
    /// The transport failed; the text is the transport's own message.
    Io(String),
    /// The proxy did not accept the "no authentication" method.
    AuthenticationFailed,
    /// The proxy could not reach the target, for the reason given.
    ConnectionFailed(String),
    /// The proxy answered with something that is not a SOCKS5 reply.
    InvalidResponse,
    /// The target's name does not fit the one-byte length of a request.
    UnsupportedAddressType,
}

/// The mathematical value of a `Socks5Error`.
pub enum Socks5ErrorView {
    Io(Seq<char>),
    AuthenticationFailed,
    ConnectionFailed(Seq<char>),
    InvalidResponse,
    UnsupportedAddressType,
}

impl View for Socks5Error {
    type V = Socks5ErrorView;

    open spec fn view(&self) -> Socks5ErrorView {
        match *self {
            Socks5Error::Io(text) => Socks5ErrorView::Io(text@),
            Socks5Error::AuthenticationFailed => Socks5ErrorView::AuthenticationFailed,
            Socks5Error::ConnectionFailed(reason) => Socks5ErrorView::ConnectionFailed(reason@),
            Socks5Error::InvalidResponse => Socks5ErrorView::InvalidResponse,
            Socks5Error::UnsupportedAddressType => Socks5ErrorView::UnsupportedAddressType,
        }
    }
}

impl Socks5Error {
    /// The sentence that describes each error.
    pub open spec fn message_of(error: Socks5ErrorView) -> Seq<char> {
        match error {
            Socks5ErrorView::Io(text) => "IO error: "@ + text,
            Socks5ErrorView::AuthenticationFailed => "SOCKS5 authentication failed"@,
            Socks5ErrorView::ConnectionFailed(reason) => "SOCKS5 connection failed: "@ + reason,
            Socks5ErrorView::InvalidResponse => "Invalid SOCKS5 response"@,
            Socks5ErrorView::UnsupportedAddressType => "Unsupported address type"@,
        }
    }

    /// The error as a sentence for people.
    pub fn message(&self) -> (text: String)
        ensures
            text@ == Self::message_of(self@),
    {
        match self {
            Socks5Error::Io(detail) => String::from_str("IO error: ").concat(detail.as_str()),
            Socks5Error::AuthenticationFailed => String::from_str("SOCKS5 authentication failed"),
            Socks5Error::ConnectionFailed(reason) => String::from_str(
                "SOCKS5 connection failed: ",
            ).concat(reason.as_str()),
            Socks5Error::InvalidResponse => String::from_str("Invalid SOCKS5 response"),
            Socks5Error::UnsupportedAddressType => String::from_str("Unsupported address type"),
        }
    }
}

/// The protocol version that every message starts with.
pub const SOCKS_VERSION: u8 = 0x05;

/// The method id of "no authentication".
pub const METHOD_NO_AUTH: u8 = 0x00;

/// The longest domain name, in bytes, that a request can carry.
pub const MAX_DOMAIN_LEN: usize = 255;

/// The commands a client can ask of the proxy; only CONNECT is used.
#[derive(Debug, Clone, Copy, PartialEq, Eq)]
pub enum Command {
    Connect,
}

impl Command {
    /// The byte that stands for the command on the wire.
    pub open spec fn spec_code(self) -> u8 {
        0x01
    }

    #[verifier::when_used_as_spec(spec_code)]
    pub fn code(self) -> (byte: u8)
        ensures
            byte == self.spec_code(),
    {
        match self {
            Command::Connect => 0x01,
        }
    }
}

/// The kinds of address a request or a reply can carry.
#[derive(Debug, Clone, Copy, PartialEq, Eq)]
pub enum AddressType {
    Ipv4,
    DomainName,
    Ipv6,
}

impl AddressType {
    /// The byte that stands for the address type on the wire.
    pub open spec fn spec_code(self) -> u8 {
        match self {
            AddressType::Ipv4 => 0x01,
            AddressType::DomainName => 0x03,
            AddressType::Ipv6 => 0x04,
        }
    }

    /// The address type that a wire byte stands for, if any.
    pub open spec fn spec_from_code(byte: u8) -> Option<AddressType> {
        if byte == 0x01 {
            Some(AddressType::Ipv4)
        } else if byte == 0x03 {
            Some(AddressType::DomainName)
        } else if byte == 0x04 {
            Some(AddressType::Ipv6)
        } else {
            None
        }
    }

    #[verifier::when_used_as_spec(spec_code)]
    pub fn code(self) -> (byte: u8)
        ensures
            byte == self.spec_code(),
    {
        match self {
            AddressType::Ipv4 => 0x01,
            AddressType::DomainName => 0x03,
            AddressType::Ipv6 => 0x04,
        }
    }

    #[verifier::when_used_as_spec(spec_from_code)]
    pub fn from_code(byte: u8) -> (kind: Option<AddressType>)
        ensures
            kind == Self::spec_from_code(byte),
    {
        if byte == 0x01 {
            Some(AddressType::Ipv4)
        } else if byte == 0x03 {
            Some(AddressType::DomainName)
        } else if byte == 0x04 {
            Some(AddressType::Ipv6)
        } else {
            None
        }
    }
}

/// Decoding undoes encoding, and no other byte decodes to an address type.
pub proof fn lemma_address_type_code_round_trip(kind: AddressType, byte: u8)
    ensures
        AddressType::spec_from_code(kind.spec_code()) == Some(kind),
        AddressType::spec_from_code(byte) == Some(kind) ==> byte == kind.spec_code(),
{
}

/// The target of a CONNECT request: a literal address, or a name that
/// the proxy resolves itself.
#[derive(Debug, Clone, PartialEq, Eq)]
pub enum TargetAddress {
    Ipv4([u8; 4]),
    Ipv6([u8; 16]),
    Domain(String),
}

/// The mathematical value of a `TargetAddress`; a name counts by the
/// bytes it is written with.
pub enum TargetView {
    Ipv4(Seq<u8>),
    Ipv6(Seq<u8>),
    Domain(Seq<u8>),
}

impl View for TargetAddress {
    type V = TargetView;

    open spec fn view(&self) -> TargetView {
        match *self {
            TargetAddress::Ipv4(octets) => TargetView::Ipv4(octets@),
            TargetAddress::Ipv6(octets) => TargetView::Ipv6(octets@),
            TargetAddress::Domain(name) => TargetView::Domain(encode_utf8(name@)),
        }
    }
}

/// What reading a host as an IP address gave, where it is one: the
/// octets of the address.
#[derive(Debug, Clone, Copy, PartialEq, Eq)]
pub enum IpLiteral {
    V4([u8; 4]),
    V6([u8; 16]),
}

/// The target that a host stands for, given what reading it as an IP
/// address gave: a literal address goes by its octets, anything else
/// is a name, written with the bytes of the host.
pub open spec fn target_view_of(host: Seq<char>, literal: Option<IpLiteral>) -> TargetView {
    match literal {
        Some(IpLiteral::V4(octets)) => TargetView::Ipv4(octets@),
        Some(IpLiteral::V6(octets)) => TargetView::Ipv6(octets@),
        None => TargetView::Domain(encode_utf8(host)),
    }
}

/// Chooses the form in which a host goes into a request. `literal` is
/// what reading `host` as an IP address gave.
pub fn target_of(host: &str, literal: Option<IpLiteral>) -> (target: TargetAddress)
    ensures
        target@ == target_view_of(host@, literal),
{
    match literal {
        Some(IpLiteral::V4(octets)) => TargetAddress::Ipv4(octets),
        Some(IpLiteral::V6(octets)) => TargetAddress::Ipv6(octets),
        None => TargetAddress::Domain(String::from_str(host)),
    }
}

impl TargetAddress {
    /// Whether the target is a name of more than 255 bytes.
    pub fn is_too_long(&self) -> (too_long: bool)
        ensures
            too_long == self@.too_long(),
    {
        match self {
            TargetAddress::Domain(name) => name.as_str().as_bytes().len() > MAX_DOMAIN_LEN,
            _ => false,
        }
    }
}

impl TargetView {
    /// The name is too long for the length byte of a request.
    pub open spec fn too_long(self) -> bool {
        self matches TargetView::Domain(name) && name.len() > MAX_DOMAIN_LEN
    }

    /// Address type and address as they stand in a request.
    pub open spec fn address_block(self) -> Seq<u8> {
        match self {
            TargetView::Ipv4(octets) => seq![AddressType::Ipv4.spec_code()] + octets,
            TargetView::Ipv6(octets) => seq![AddressType::Ipv6.spec_code()] + octets,
            TargetView::Domain(name) => seq![AddressType::DomainName.spec_code(), name.len() as u8]
                + name,
        }
    }
}

/// The two bytes of a port, most significant first.
pub open spec fn port_bytes(port: u16) -> Seq<u8> {
    seq![(port / 256) as u8, (port % 256) as u8]
}

/// The method-negotiation message: version 5, one method, "no
/// authentication".
pub open spec fn greeting_bytes() -> Seq<u8> {
    seq![SOCKS_VERSION, 0x01u8, METHOD_NO_AUTH]
}

/// The CONNECT request for a target whose name fits.
pub open spec fn connect_request_bytes(target: TargetView, port: u16) -> Seq<u8> {
    seq![SOCKS_VERSION, Command::Connect.spec_code(), 0x00u8] + target.address_block() + port_bytes(
        port,
    )
}

/// What building a CONNECT request comes to: the request, or the
/// refusal of a name that is too long.
pub open spec fn connect_request_outcome(target: TargetView, port: u16) -> Result<
    Seq<u8>,
    Socks5ErrorView,
> {
    if target.too_long() {
        Err(Socks5ErrorView::UnsupportedAddressType)
    } else {
        Ok(connect_request_bytes(target, port))
    }
}

/// What is wrong with the proxy's two-byte answer to the greeting, if
/// anything: the version is looked at first, then the chosen method.
pub open spec fn method_reply_error(reply: Seq<u8>) -> Option<Socks5ErrorView>
    recommends
        reply.len() == 2,
{
    if reply[0] != SOCKS_VERSION {
        Some(Socks5ErrorView::InvalidResponse)
    } else if reply[1] != METHOD_NO_AUTH {
        Some(Socks5ErrorView::AuthenticationFailed)
    } else {
        None
    }
}

/// The reason that goes with each reply code other than success.
pub open spec fn reason_of(code: u8) -> Seq<char> {
    if code == 0x01 {
        "General SOCKS server failure"@
    } else if code == 0x02 {
        "Connection not allowed by ruleset"@
    } else if code == 0x03 {
        "Network unreachable"@
    } else if code == 0x04 {
        "Host unreachable"@
    } else if code == 0x05 {
        "Connection refused"@
    } else if code == 0x06 {
        "TTL expired"@
    } else if code == 0x07 {
        "Command not supported"@
    } else if code == 0x08 {
        "Address type not supported"@
    } else {
        "Unknown error"@
    }
}

/// What the four fixed bytes of a reply say: the kind of bound address
/// that follows, or the failure. The version is looked at first, then
/// the reply code, then the address type.
pub open spec fn reply_header_outcome(header: Seq<u8>) -> Result<AddressType, Socks5ErrorView>
    recommends
        header.len() == 4,
{
    if header[0] != SOCKS_VERSION {
        Err(Socks5ErrorView::InvalidResponse)
    } else if header[1] != 0x00 {
        Err(Socks5ErrorView::ConnectionFailed(reason_of(header[1])))
    } else {
        match AddressType::spec_from_code(header[3]) {
            Some(kind) => Ok(kind),
            None => Err(Socks5ErrorView::InvalidResponse),
        }
    }
}

/// The view of a result whose error is a `Socks5Error`.
pub open spec fn outcome_view<T>(outcome: Result<T, Socks5Error>) -> Result<T, Socks5ErrorView> {
    match outcome {
        Ok(value) => Ok(value),
        Err(error) => Err(error@),
    }
}

/// Appends `bytes` to `out`.
fn append_bytes(out: &mut Vec<u8>, bytes: &[u8])
    ensures
        final(out)@ == old(out)@ + bytes@,
{
    let mut i: usize = 0;
    while i < bytes.len()
        invariant
            i <= bytes@.len(),
            out@ == old(out)@ + bytes@.subrange(0, i as int),
        decreases bytes@.len() - i,
    {
        out.push(bytes[i]);
        i += 1;
    }
    assert(bytes@.subrange(0, i as int) == bytes@);
}

/// The message that opens the handshake.
pub fn greeting() -> (message: Vec<u8>)
    ensures
        message@ == greeting_bytes(),
{
    let mut message: Vec<u8> = Vec::new();
    message.push(SOCKS_VERSION);
    message.push(0x01);
    message.push(METHOD_NO_AUTH);
    message
}

/// Judges the proxy's answer to the greeting.
pub fn check_method_reply(reply: &[u8]) -> (verdict: Result<(), Socks5Error>)
    requires
        reply@.len() == 2,
    ensures
        verdict is Ok <==> method_reply_error(reply@) is None,
        verdict matches Err(error) ==> method_reply_error(reply@) == Some(error@),
{
    if reply[0] != SOCKS_VERSION {
        return Err(Socks5Error::InvalidResponse);
    }
    let selected_method = reply[1];
    if selected_method != METHOD_NO_AUTH {
        return Err(Socks5Error::AuthenticationFailed);
    }
    Ok(())
}

/// The reason text for a reply code.
pub fn reply_reason(code: u8) -> (reason: &'static str)
    ensures
        reason@ == reason_of(code),
{
    match code {
        0x01 => "General SOCKS server failure",
        0x02 => "Connection not allowed by ruleset",
        0x03 => "Network unreachable",
        0x04 => "Host unreachable",
        0x05 => "Connection refused",
        0x06 => "TTL expired",
        0x07 => "Command not supported",
        0x08 => "Address type not supported",
        _ => "Unknown error",
    }
}

/// Builds the CONNECT request, or refuses a name of more than 255
/// bytes before anything is built.
pub fn connect_request(target: &TargetAddress, port: u16) -> (request: Result<
    Vec<u8>,
    Socks5Error,
>)
    ensures
        match request {
            Ok(bytes) => connect_request_outcome(target@, port) == Ok::<Seq<u8>, Socks5ErrorView>(
                bytes@,
            ),
            Err(error) => connect_request_outcome(target@, port) == Err::<Seq<u8>, Socks5ErrorView>(
                error@,
            ),
        },
{
    let mut request: Vec<u8> = Vec::new();
    request.push(SOCKS_VERSION);
    request.push(Command::Connect.code());
    request.push(0x00);
    match target {
        TargetAddress::Ipv4(octets) => {
            request.push(AddressType::Ipv4.code());
            append_bytes(&mut request, octets.as_slice());
        },
        TargetAddress::Ipv6(octets) => {
            request.push(AddressType::Ipv6.code());
            append_bytes(&mut request, octets.as_slice());
        },
        TargetAddress::Domain(name) => {
            let name_bytes = name.as_str().as_bytes();
            if name_bytes.len() > MAX_DOMAIN_LEN {
                return Err(Socks5Error::UnsupportedAddressType);
            }
            request.push(AddressType::DomainName.code());
            request.push(name_bytes.len() as u8);
            append_bytes(&mut request, name_bytes);
        },
    }
    request.push((port / 256) as u8);
    request.push((port % 256) as u8);
    assert(request@ == connect_request_bytes(target@, port));
    Ok(request)
}

/// Judges the four fixed bytes of the proxy's reply to the request.
pub fn parse_reply_header(header: &[u8]) -> (outcome: Result<AddressType, Socks5Error>)
    requires
        header@.len() == 4,
    ensures
        outcome_view(outcome) == reply_header_outcome(header@),
{
    if header[0] != SOCKS_VERSION {
        return Err(Socks5Error::InvalidResponse);
    }
    let code = header[1];
    if code != 0x00 {
        return Err(Socks5Error::ConnectionFailed(String::from_str(reply_reason(code))));
    }
    match AddressType::from_code(header[3]) {
        Some(kind) => Ok(kind),
        None => Err(Socks5Error::InvalidResponse),
    }
}

/// Where a handshake stands: what was sent last and what is awaited.
#[derive(Debug, Clone, Copy, PartialEq, Eq)]
pub enum HandshakePhase {
    /// Connected to the proxy; nothing sent yet.
    Start,
    /// The greeting is out; the two-byte method choice is awaited.
    AwaitMethod,
    /// The request is out; the four fixed bytes of the reply are awaited.
    AwaitReply,
    /// The reply carries a name as bound address; its length byte is
    /// awaited.
    AwaitDomainLength,
    /// The rest of the bound address, `len` bytes, is awaited.
    AwaitBoundAddress { len: usize },
    /// The stream now carries the target's data.
    Established,
    /// The handshake has failed.
    Failed,
}

impl HandshakePhase {
    /// The number of bytes that must have been read before the next
    /// step; a finished handshake awaits nothing.
    pub open spec fn awaited(self) -> Option<nat> {
        match self {
            HandshakePhase::Start => Some(0nat),
            HandshakePhase::AwaitMethod => Some(2nat),
            HandshakePhase::AwaitReply => Some(4nat),
            HandshakePhase::AwaitDomainLength => Some(1nat),
            HandshakePhase::AwaitBoundAddress { len } => Some(len as nat),
            HandshakePhase::Established => None,
            HandshakePhase::Failed => None,
        }
    }

    /// No further step follows.
    pub open spec fn spec_is_finished(self) -> bool {
        self is Established || self is Failed
    }

    #[verifier::when_used_as_spec(spec_is_finished)]
    pub fn is_finished(self) -> (finished: bool)
        ensures
            finished == self.spec_is_finished(),
            finished <==> self.awaited() is None,
    {
        match self {
            HandshakePhase::Established => true,
            HandshakePhase::Failed => true,
            _ => false,
        }
    }

    /// The number of bytes to hand to the next step, 0 when finished.
    pub fn awaited_len(self) -> (len: usize)
        ensures
            self.awaited() == (if self.spec_is_finished() {
                None
            } else {
                Some(len as nat)
            }),
            self.spec_is_finished() ==> len == 0,
    {
        match self {
            HandshakePhase::Start => 0,
            HandshakePhase::AwaitMethod => 2,
            HandshakePhase::AwaitReply => 4,
            HandshakePhase::AwaitDomainLength => 1,
            HandshakePhase::AwaitBoundAddress { len } => len,
            HandshakePhase::Established => 0,
            HandshakePhase::Failed => 0,
        }
    }
}

/// What the caller does next with the stream.
#[derive(Debug, Clone, PartialEq, Eq)]
pub enum HandshakeAction {
    /// Write all of `send`, then read exactly `expect` bytes.
    Exchange { send: Vec<u8>, expect: usize },
    /// Write nothing; read exactly `expect` bytes.
    Read { expect: usize },
    /// Done: the stream stands at the start of the target's data.
    Established,
    /// Give up with this error; nothing more is written or read.
    Fail(Socks5Error),
}

/// The mathematical value of a `HandshakeAction`.
pub enum ActionView {
    Exchange { send: Seq<u8>, expect: usize },
    Read { expect: usize },
    Established,
    Fail(Socks5ErrorView),
}

impl View for HandshakeAction {
    type V = ActionView;

    open spec fn view(&self) -> ActionView {
        match *self {
            HandshakeAction::Exchange { send, expect } => ActionView::Exchange {
                send: send@,
                expect,
            },
            HandshakeAction::Read { expect } => ActionView::Read { expect },
            HandshakeAction::Established => ActionView::Established,
            HandshakeAction::Fail(error) => ActionView::Fail(error@),
        }
    }
}

impl ActionView {
    /// The bytes that the action puts on the wire.
    pub open spec fn written(self) -> Seq<u8> {
        match self {
            ActionView::Exchange { send, .. } => send,
            _ => Seq::<u8>::empty(),
        }
    }
}

/// The length of what follows the four fixed bytes of a reply, before
/// any of it is read: for a name, only its length byte.
pub open spec fn bound_address_first_read(kind: AddressType) -> usize {
    match kind {
        AddressType::Ipv4 => 6,
        AddressType::Ipv6 => 18,
        AddressType::DomainName => 1,
    }
}

/// One step of the handshake as a function: from the phase, the target
/// and the bytes just read to the next phase and the action.
pub open spec fn handshake_step(
    phase: HandshakePhase,
    target: TargetView,
    port: u16,
    input: Seq<u8>,
) -> (HandshakePhase, ActionView)
    recommends
        phase.awaited() == Some(input.len()),
{
    match phase {
        HandshakePhase::Start => if target.too_long() {
            (
                HandshakePhase::Failed,
                ActionView::Fail(Socks5ErrorView::UnsupportedAddressType),
            )
        } else {
            (
                HandshakePhase::AwaitMethod,
                ActionView::Exchange { send: greeting_bytes(), expect: 2 },
            )
        },
        HandshakePhase::AwaitMethod => match method_reply_error(input) {
            Some(error) => (HandshakePhase::Failed, ActionView::Fail(error)),
            None => match connect_request_outcome(target, port) {
                Ok(request) => (
                    HandshakePhase::AwaitReply,
                    ActionView::Exchange { send: request, expect: 4 },
                ),
                Err(error) => (HandshakePhase::Failed, ActionView::Fail(error)),
            },
        },
        HandshakePhase::AwaitReply => match reply_header_outcome(input) {
            Err(error) => (HandshakePhase::Failed, ActionView::Fail(error)),
            Ok(AddressType::DomainName) => (
                HandshakePhase::AwaitDomainLength,
                ActionView::Read { expect: 1 },
            ),
            Ok(kind) => (
                HandshakePhase::AwaitBoundAddress { len: bound_address_first_read(kind) },
                ActionView::Read { expect: bound_address_first_read(kind) },
            ),
        },
        HandshakePhase::AwaitDomainLength => (
            HandshakePhase::AwaitBoundAddress { len: (input[0] + 2) as usize },
            ActionView::Read { expect: (input[0] + 2) as usize },
        ),
        HandshakePhase::AwaitBoundAddress { .. } => (
            HandshakePhase::Established,
            ActionView::Established,
        ),
        // A finished handshake takes no further step: it stays what it is.
        HandshakePhase::Established => (HandshakePhase::Established, ActionView::Established),
        HandshakePhase::Failed => (
            HandshakePhase::Failed,
            ActionView::Fail(Socks5ErrorView::InvalidResponse),
        ),
    }
}

/// One handshake with the proxy, for one target.
#[derive(Debug, Clone, PartialEq, Eq)]
pub struct Handshake {
    pub target: TargetAddress,
    pub port: u16,
    pub phase: HandshakePhase,
}

impl Handshake {
    /// A handshake that has not begun.
    pub fn new(target: TargetAddress, port: u16) -> (handshake: Handshake)
        ensures
            handshake.target == target,
            handshake.port == port,
            handshake.phase == HandshakePhase::Start,
    {
        Handshake { target, port, phase: HandshakePhase::Start }
    }

    /// Takes the bytes that the last action asked for (none at the
    /// start) and says what to do next.
    pub fn step(&mut self, input: &[u8]) -> (action: HandshakeAction)
        requires
            old(self).phase.awaited() == Some(input@.len()),
        ensures
            final(self).target == old(self).target,
            final(self).port == old(self).port,
            (final(self).phase, action@) == handshake_step(
                old(self).phase,
                old(self).target@,
                old(self).port,
                input@,
            ),
    {
        match self.phase {
            HandshakePhase::Start => {
                if self.target.is_too_long() {
                    self.phase = HandshakePhase::Failed;
                    HandshakeAction::Fail(Socks5Error::UnsupportedAddressType)
                } else {
                    self.phase = HandshakePhase::AwaitMethod;
                    HandshakeAction::Exchange { send: greeting(), expect: 2 }
                }
            },
            HandshakePhase::AwaitMethod => {
                match check_method_reply(input) {
                    Err(error) => {
                        self.phase = HandshakePhase::Failed;
                        HandshakeAction::Fail(error)
                    },
                    Ok(()) => match connect_request(&self.target, self.port) {
                        Ok(request) => {
                            self.phase = HandshakePhase::AwaitReply;
                            HandshakeAction::Exchange { send: request, expect: 4 }
                        },
                        Err(error) => {
                            self.phase = HandshakePhase::Failed;
                            HandshakeAction::Fail(error)
                        },
                    },
                }
            },
            HandshakePhase::AwaitReply => {
                match parse_reply_header(input) {
                    Err(error) => {
                        self.phase = HandshakePhase::Failed;
                        HandshakeAction::Fail(error)
                    },
                    Ok(AddressType::Ipv4) => {
                        self.phase = HandshakePhase::AwaitBoundAddress { len: 6 };
                        HandshakeAction::Read { expect: 6 }
                    },
                    Ok(AddressType::Ipv6) => {
                        self.phase = HandshakePhase::AwaitBoundAddress { len: 18 };
                        HandshakeAction::Read { expect: 18 }
                    },
                    Ok(AddressType::DomainName) => {
                        self.phase = HandshakePhase::AwaitDomainLength;
                        HandshakeAction::Read { expect: 1 }
                    },
                }
            },
            HandshakePhase::AwaitDomainLength => {
                let len: usize = input[0] as usize + 2;
                self.phase = HandshakePhase::AwaitBoundAddress { len };
                HandshakeAction::Read { expect: len }
            },
            HandshakePhase::AwaitBoundAddress { .. } => {
                self.phase = HandshakePhase::Established;
                HandshakeAction::Established
            },
            HandshakePhase::Established | HandshakePhase::Failed => unreached(),
        }
    }
}

/// A proxy that answers the greeting with version 5 and any method
/// other than "no authentication" ends the handshake with
/// `AuthenticationFailed`, and that step writes nothing: no request
/// goes out.
pub proof fn lemma_refused_method_sends_no_request(target: TargetView, port: u16, reply: Seq<u8>)
    requires
        reply.len() == 2,
        reply[0] == SOCKS_VERSION,
        reply[1] != METHOD_NO_AUTH,
    ensures
        handshake_step(HandshakePhase::AwaitMethod, target, port, reply) == (
            HandshakePhase::Failed,
            ActionView::Fail(Socks5ErrorView::AuthenticationFailed),
        ),
        handshake_step(HandshakePhase::AwaitMethod, target, port, reply).1.written().len() == 0,
{
}

/// For a name of more than 255 bytes no step of a handshake writes
/// anything, and the first step fails with `UnsupportedAddressType`
/// before the proxy has been sent a byte.
pub proof fn lemma_long_name_is_never_sent(
    target: TargetView,
    port: u16,
    phase: HandshakePhase,
    input: Seq<u8>,
)
    requires
        target.too_long(),
        phase.awaited() == Some(input.len()),
    ensures
        connect_request_outcome(target, port) == Err::<Seq<u8>, Socks5ErrorView>(
            Socks5ErrorView::UnsupportedAddressType,
        ),
        handshake_step(phase, target, port, input).1.written().len() == 0,
        phase == HandshakePhase::Start ==> handshake_step(phase, target, port, input) == (
            HandshakePhase::Failed,
            ActionView::Fail(Socks5ErrorView::UnsupportedAddressType),
        ),
{
}

/// A handshake is established only by reading the whole bound address:
/// every step's action asks for exactly the bytes that the next phase
/// awaits, and a finished phase is reached with a final action.
pub proof fn lemma_action_matches_phase(
    phase: HandshakePhase,
    target: TargetView,
    port: u16,
    input: Seq<u8>,
)
    requires
        phase.awaited() == Some(input.len()),
    ensures
        ({
            let (next, action) = handshake_step(phase, target, port, input);
            match action {
                ActionView::Exchange { expect, .. } => next.awaited() == Some(expect as nat),
                ActionView::Read { expect } => next.awaited() == Some(expect as nat),
                ActionView::Established => next == HandshakePhase::Established && phase
                    is AwaitBoundAddress,
                ActionView::Fail(_) => next == HandshakePhase::Failed,
            }
        }),
{
}

/// Everything that a handshake writes while it takes `inputs` one by
/// one, from `phase` on. It stops where it is finished, or where an
/// input has not the length that the phase awaits.
pub open spec fn written_by(
    phase: HandshakePhase,
    target: TargetView,
    port: u16,
    inputs: Seq<Seq<u8>>,
) -> Seq<u8>
    decreases inputs.len(),
{
    if inputs.len() == 0 || phase.awaited() != Some(inputs[0].len()) {
        Seq::<u8>::empty()
    } else {
        handshake_step(phase, target, port, inputs[0]).1.written() + written_by(
            handshake_step(phase, target, port, inputs[0]).0,
            target,
            port,
            inputs.drop_first(),
        )
    }
}

/// A handshake for a name of more than 255 bytes writes nothing at
/// all, whatever the proxy would answer and however long the handshake
/// is driven.
pub proof fn lemma_long_name_writes_nothing(target: TargetView, port: u16, inputs: Seq<Seq<u8>>)
    requires
        target.too_long(),
    ensures
        written_by(HandshakePhase::Start, target, port, inputs) == Seq::<u8>::empty(),
{
    if inputs.len() > 0 && inputs[0].len() == 0 {
        assert(written_by(HandshakePhase::Failed, target, port, inputs.drop_first())
            =~= Seq::<u8>::empty());
    }
    assert(written_by(HandshakePhase::Start, target, port, inputs) =~= Seq::<u8>::empty());
}

/// A handshake in which the proxy answers the greeting with anything
/// but version 5 and "no authentication" writes the greeting and
/// nothing else: no request follows a refused method. (For a name of
/// more than 255 bytes not even the greeting is written.)
pub proof fn lemma_refused_method_writes_only_the_greeting(
    target: TargetView,
    port: u16,
    inputs: Seq<Seq<u8>>,
)
    requires
        inputs.len() >= 2,
        inputs[0].len() == 0,
        inputs[1].len() == 2,
        method_reply_error(inputs[1]) is Some,
    ensures
        written_by(HandshakePhase::Start, target, port, inputs) == (if target.too_long() {
            Seq::<u8>::empty()
        } else {
            greeting_bytes()
        }),
{
    if target.too_long() {
        lemma_long_name_writes_nothing(target, port, inputs);
    } else {
        let rest = inputs.drop_first();
        assert(rest[0] == inputs[1]);
        assert(handshake_step(HandshakePhase::AwaitMethod, target, port, rest[0]).0
            == HandshakePhase::Failed);
        assert(written_by(HandshakePhase::Failed, target, port, rest.drop_first())
            =~= Seq::<u8>::empty());
        assert(written_by(HandshakePhase::AwaitMethod, target, port, rest) =~= Seq::<u8>::empty());
        assert(written_by(HandshakePhase::Start, target, port, inputs) =~= greeting_bytes());
    }
}

/// After a reply that reports success the bound address is read whole
/// before the handshake is established: 6 bytes for an IPv4 address,
/// 18 for an IPv6 address, and for a name its length byte, then the
/// name and the port.
pub proof fn lemma_bound_address_is_read_whole(
    target: TargetView,
    port: u16,
    header: Seq<u8>,
    first: Seq<u8>,
    second: Seq<u8>,
)
    requires
        header.len() == 4,
        reply_header_outcome(header) is Ok,
    ensures
        ({
            let kind = reply_header_outcome(header)->Ok_0;
            let (awaiting, action) = handshake_step(HandshakePhase::AwaitReply, target, port, header);
            let (next, then) = handshake_step(awaiting, target, port, first);
            &&& action == ActionView::Read { expect: bound_address_first_read(kind) }
            &&& awaiting.awaited() == Some(bound_address_first_read(kind) as nat)
            &&& kind == AddressType::Ipv4 ==> bound_address_first_read(kind) == 6 && then
                == ActionView::Established
            &&& kind == AddressType::Ipv6 ==> bound_address_first_read(kind) == 18 && then
                == ActionView::Established
            &&& kind == AddressType::DomainName && first.len() == 1 ==> {
                &&& then == ActionView::Read { expect: (first[0] + 2) as usize }
                &&& next.awaited() == Some((first[0] + 2) as nat)
                &&& handshake_step(next, target, port, second).1 == ActionView::Established
            }
        }),
{
}

} // verus!
