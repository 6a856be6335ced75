use vstd::prelude::*;
use libtelnet_rs::Parser;
use libtelnet_rs::events::TelnetEvents;

verus! {

/// The telnet parser of the libtelnet crate, kept opaque: the library
/// reads it only through the trusted functions below.
#[verifier::external_type_specification]
#[verifier::external_body]
pub struct ExParser(Parser);

/// One telnet event, in the library's own shape: raw bytes instead of
/// the crate's buffer type, and plain payloads for each kind.
#[derive(Clone, Debug)]
pub enum TelnetEvent {
    /// Bytes the parser asks to have written to the transport.
    DataSend(Vec<u8>),
    /// Payload bytes received from the remote side.
    DataReceive(Vec<u8>),
    /// A two-byte IAC command; the payload is the command byte.
    Iac(u8),
    /// An option negotiation: command byte, option byte.
    Negotiation(u8, u8),
    /// A subnegotiation: option byte and its unescaped payload.
    Subnegotiation(u8, Vec<u8>),
    /// An MCCP decompression request, which this library does not
    /// support.
    Decompress(Vec<u8>),
}

/// The parser's option table: for each option code, whether it is
/// supported locally, supported remotely, enabled locally, and enabled
/// remotely.
pub uninterp spec fn parser_options(p: Parser) -> Map<int, (bool, bool, bool, bool)>;

/// Doubling every 0xFF byte escapes a payload for transmission inside a
/// telnet stream.
pub open spec fn spec_escape_iac(s: Seq<u8>) -> Seq<u8>
    decreases s.len(),
{
    if s.len() == 0 {
        Seq::empty()
    } else if s[0] == 255 {
        seq![255u8, 255u8] + spec_escape_iac(s.skip(1))
    } else {
        seq![s[0]] + spec_escape_iac(s.skip(1))
    }
}

/// Relies on Parser::new: a fresh parser starts with every option
/// unsupported and disabled.
#[verifier::external_body]
pub fn parser_new() -> (p: Parser)
    ensures
        forall|o: int| 0 <= o < 256 ==> parser_options(p)[o] == (false, false, false, false),
{
    Parser::new()
}

/// Relies on CompatibilityTable::support: it marks the option supported
/// in both directions and keeps its negotiated states.
#[verifier::external_body]
pub fn parser_support(p: &mut Parser, option: u8)
    ensures
        parser_options(*final(p)) == parser_options(*old(p)).insert(
            option as int,
            (
                true,
                true,
                parser_options(*old(p))[option as int].2,
                parser_options(*old(p))[option as int].3,
            ),
        ),
{
    p.options.support(option);
}

/// Relies on CompatibilityTable::support_remote: it marks the option
/// supported remotely and keeps everything else.
#[verifier::external_body]
pub fn parser_support_remote(p: &mut Parser, option: u8)
    ensures
        parser_options(*final(p)) == parser_options(*old(p)).insert(
            option as int,
            (
                parser_options(*old(p))[option as int].0,
                true,
                parser_options(*old(p))[option as int].2,
                parser_options(*old(p))[option as int].3,
            ),
        ),
{
    p.options.support_remote(option);
}

/// Relies on CompatibilityTable::get_option: it reads the option's
/// entry without changing anything.
#[verifier::external_body]
pub fn parser_get_option(p: &Parser, option: u8) -> (r: (bool, bool, bool, bool))
    ensures
        r == parser_options(*p)[option as int],
{
    let e = p.options.get_option(option);
    (e.local, e.remote, e.local_state, e.remote_state)
}

/// Relies on Parser::receive: it feeds bytes from the remote side
/// through the telnet state machine. The events depend on the parser's
/// internal buffer, so nothing is assumed of them and the caller
/// handles every possible event list. Processing a negotiation can flip
/// an option's enabled states, but never which options are supported.
/// The option code 0xFF (the IAC value itself) must not be locally
/// supported: on a subnegotiation of that option with an empty body,
/// Parser::receive takes a backwards slice of its buffer and panics.
#[verifier::external_body]
pub fn parser_receive(p: &mut Parser, data: &[u8]) -> (events: Vec<TelnetEvent>)
    requires
        !parser_options(*old(p))[255].0,
    ensures
        forall|o: int| 0 <= o < 256 ==> ((#[trigger] parser_options(*final(p))[o]).0
            == parser_options(*old(p))[o].0 && parser_options(*final(p))[o].1 == parser_options(
            *old(p),
        )[o].1),
{
    p.receive(data).into_iter().map(|e| match e {
        TelnetEvents::IAC(i) => TelnetEvent::Iac(i.command),
        TelnetEvents::Negotiation(n) => TelnetEvent::Negotiation(n.command, n.option),
        TelnetEvents::Subnegotiation(s) => TelnetEvent::Subnegotiation(s.option, s.buffer.to_vec()),
        TelnetEvents::DataReceive(b) => TelnetEvent::DataReceive(b.to_vec()),
        TelnetEvents::DataSend(b) => TelnetEvent::DataSend(b.to_vec()),
        TelnetEvents::DecompressImmediate(b) => TelnetEvent::Decompress(b.to_vec()),
    }).collect()
}

/// Relies on Parser::subnegotiation: when the option is locally
/// supported and enabled it builds IAC SB option <payload, IAC-escaped>
/// IAC SE as a data-send event, otherwise nothing; the option table is
/// left as it is.
#[verifier::external_body]
pub fn parser_subnegotiation(p: &mut Parser, option: u8, data: &[u8]) -> (r: Option<Vec<u8>>)
    ensures
        parser_options(*final(p)) == parser_options(*old(p)),
        r is Some <==> (parser_options(*old(p))[option as int].0 && parser_options(
            *old(p),
        )[option as int].2),
        r matches Some(b) ==> b@ == seq![255u8, 250u8, option] + spec_escape_iac(data@) + seq![
            255u8,
            240u8,
        ],
{
    match p.subnegotiation(option, libtelnet_rs::bytes::Bytes::copy_from_slice(data)) {
        Some(ev) => {
            let b: libtelnet_rs::bytes::Bytes = ev.into();
            Some(b.to_vec())
        },
        None => None,
    }
}

/// Relies on Parser::_will: when the option is locally supported and
/// not yet locally enabled, it marks it locally enabled and yields
/// IAC WILL option; otherwise it yields nothing and changes nothing.
#[verifier::external_body]
pub fn parser_will(p: &mut Parser, option: u8) -> (r: Option<Vec<u8>>)
    ensures
        ({
            let e = parser_options(*old(p))[option as int];
            if e.0 && !e.2 {
                &&& r matches Some(b) && b@ == seq![255u8, 251u8, option]
                &&& parser_options(*final(p)) == parser_options(*old(p)).insert(
                    option as int,
                    (e.0, e.1, true, e.3),
                )
            } else {
                &&& r is None
                &&& parser_options(*final(p)) == parser_options(*old(p))
            }
        }),
{
    match p._will(option) {
        Some(ev) => {
            let b: libtelnet_rs::bytes::Bytes = ev.into();
            Some(b.to_vec())
        },
        None => None,
    }
}

/// Relies on Parser::_do: when the option is remotely supported and not
/// yet remotely enabled it yields IAC DO option; the option table is
/// not changed either way.
#[verifier::external_body]
pub fn parser_do(p: &mut Parser, option: u8) -> (r: Option<Vec<u8>>)
    ensures
        parser_options(*final(p)) == parser_options(*old(p)),
        ({
            let e = parser_options(*old(p))[option as int];
            if e.1 && !e.3 {
                r matches Some(b) && b@ == seq![255u8, 253u8, option]
            } else {
                r is None
            }
        }),
{
    match p._do(option) {
        Some(ev) => {
            let b: libtelnet_rs::bytes::Bytes = ev.into();
            Some(b.to_vec())
        },
        None => None,
    }
}

/// Relies on Parser::escape_iac: it doubles every IAC (0xFF) byte and
/// changes nothing else.
#[verifier::external_body]
pub fn escape_iac(data: &[u8]) -> (r: Vec<u8>)
    ensures
        r@ == spec_escape_iac(data@),
{
    Parser::escape_iac(libtelnet_rs::bytes::Bytes::copy_from_slice(data)).to_vec()
}

} // verus!
