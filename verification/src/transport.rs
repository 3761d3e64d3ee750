//! The transport layer's decision logic: a one-shot exchange tries UDP
//! first and falls back to TCP when the reply is truncated or UDP
//! fails, and TCP replies are framed behind a two-byte length prefix.
//! The sockets themselves live outside this crate; the functions here
//! take what came back from them as plain values and decide what
//! happens next.

use vstd::prelude::*;
use vstd::slice::slice_to_vec;
use crate::dns::{DNS, spec_parse_message};
use crate::wire::{u16_hi, u16_lo, be16, convert_u16_to_two_u8s, convert_two_u8s_to_u16, prepend};

verus! {

/// What went wrong in a transport exchange. These are never placed on
/// the wire; the resolution engine maps each to `ServerFailure`.
#[derive(Debug, Clone, Copy, PartialEq, Eq, Structural)]
pub enum TransportError {
    /// The local endpoint could not be created or connected, for
    /// example because the port is taken or permission was denied.
    ClientInstantiateError,
    /// Reading the received buffer failed, or what was received could
    /// not be decoded.
    ReadError,
    /// Writing the payload failed.
    WriteError,
    /// A TCP reply whose declared length prefix does not equal the
    /// number of bytes received after it.
    DatagramLengthError,
}

/// The two transports a one-shot exchange may use.
#[derive(Debug, Clone, Copy, PartialEq, Eq, Structural)]
pub enum TransportProto {
    TCP,
    UDP,
}


/// What the UDP attempt performed by the caller came back with.
#[derive(Debug, PartialEq)]
pub enum UdpOutcome {
    /// The local UDP endpoint could not be bound.
    BindFailed,
    /// The payload could not be sent.
    SendFailed,
    /// One reply was read.
    Reply(Vec<u8>),
}

/// What the TCP attempt performed by the caller came back with.
#[derive(Debug, PartialEq)]
pub enum TcpOutcome {
    /// The stream connection could not be opened.
    ConnectFailed,
    /// The framed payload could not be written.
    WriteFailed,
    /// The reply could not be read.
    ReadFailed,
    /// One reply was read, length prefix included.
    Reply(Vec<u8>),
}

/// What a one-shot exchange does after its UDP attempt: finish with a
/// result, or fall through to one TCP attempt against the same host.
#[derive(Debug, PartialEq)]
pub enum TransportDecision {
    Finish(Result<DNS, TransportError>),
    TryTcp,
}

/// Frame a payload for TCP: a two-byte big-endian length prefix,
/// then the payload. A payload whose length does not fit the prefix
/// cannot be written.
pub fn frame_tcp_payload(payload: &[u8]) -> (r: Result<Vec<u8>, TransportError>)
    ensures
        payload@.len() <= 0xFFFF ==> r is Ok && r->Ok_0@ == seq![
            u16_hi(payload@.len() as u16),
            u16_lo(payload@.len() as u16),
        ] + payload@,
        payload@.len() > 0xFFFF ==> r == Err::<Vec<u8>, TransportError>(
            TransportError::WriteError,
        ),
{
    if payload.len() > 0xFFFF {
        return Err(TransportError::WriteError);
    }
    let prefix = convert_u16_to_two_u8s(payload.len() as u16);
    let framed = prepend(slice_to_vec(payload), prefix.as_slice());
    proof {
        assert(framed@ =~= seq![u16_hi(payload@.len() as u16), u16_lo(payload@.len() as u16)]
            + payload@);
    }
    Ok(framed)
}

/// Check the length prefix of a TCP reply: the first two received
/// bytes must equal the number of bytes received after them. Anything
/// else — a declared length that does not match, or a reply too short
/// to carry a prefix — is a length error, distinct from a read
/// failure.
pub fn validate_tcp_frame(buf: &[u8]) -> (r: Result<(), TransportError>)
    ensures
        r is Ok <==> buf@.len() >= 2 && be16(buf@[0], buf@[1]) == buf@.len() - 2,
        r is Err ==> r == Err::<(), TransportError>(TransportError::DatagramLengthError),
{
    if buf.len() < 2 {
        return Err(TransportError::DatagramLengthError);
    }
    let declared = convert_two_u8s_to_u16(buf[0], buf[1]);
    if declared as usize != buf.len() - 2 {
        return Err(TransportError::DatagramLengthError);
    }
    Ok(())
}

/// Decide what a one-shot exchange does with the outcome of its UDP
/// attempt: a bind or send failure, or a reply with the truncated flag
/// set, falls through to TCP against the same host; a reply that does
/// not decode is a read error; any other reply is the result.
pub fn handle_udp_outcome(outcome: UdpOutcome) -> (r: TransportDecision)
    ensures
        outcome matches UdpOutcome::BindFailed ==> r == TransportDecision::TryTcp,
        outcome matches UdpOutcome::SendFailed ==> r == TransportDecision::TryTcp,
        outcome matches UdpOutcome::Reply(b) ==> match spec_parse_message(b@) {
            Some(m) => if m.header.truncated {
                r == TransportDecision::TryTcp
            } else {
                r matches TransportDecision::Finish(Ok(d)) && d.model() == m
            },
            None => r == TransportDecision::Finish(
                Err::<DNS, TransportError>(TransportError::ReadError),
            ),
        },
{
    match outcome {
        UdpOutcome::BindFailed => TransportDecision::TryTcp,
        UdpOutcome::SendFailed => TransportDecision::TryTcp,
        UdpOutcome::Reply(buf) => match DNS::from(buf.as_slice(), TransportProto::UDP) {
            Ok(datagram) => if datagram.header.truncated {
                TransportDecision::TryTcp
            } else {
                TransportDecision::Finish(Ok(datagram))
            },
            Err(_) => TransportDecision::Finish(Err(TransportError::ReadError)),
        },
    }
}

/// Decide what a one-shot exchange returns after its TCP attempt: each
/// socket failure maps to its own error, a reply must carry a correct
/// length prefix, and the bytes behind the prefix must decode.
pub fn handle_tcp_outcome(outcome: TcpOutcome) -> (r: Result<DNS, TransportError>)
    ensures
        outcome matches TcpOutcome::ConnectFailed ==> r == Err::<DNS, TransportError>(
            TransportError::ClientInstantiateError,
        ),
        outcome matches TcpOutcome::WriteFailed ==> r == Err::<DNS, TransportError>(
            TransportError::WriteError,
        ),
        outcome matches TcpOutcome::ReadFailed ==> r == Err::<DNS, TransportError>(
            TransportError::ReadError,
        ),
        outcome matches TcpOutcome::Reply(b) ==> {
            &&& !(b@.len() >= 2 && be16(b@[0], b@[1]) == b@.len() - 2) ==> r == Err::<
                DNS,
                TransportError,
            >(TransportError::DatagramLengthError)
            &&& (b@.len() >= 2 && be16(b@[0], b@[1]) == b@.len() - 2) ==> match
                spec_parse_message(b@.skip(2)) {
                Some(m) => r is Ok && r->Ok_0.model() == m,
                None => r == Err::<DNS, TransportError>(TransportError::ReadError),
            }
        },
{
    match outcome {
        TcpOutcome::ConnectFailed => Err(TransportError::ClientInstantiateError),
        TcpOutcome::WriteFailed => Err(TransportError::WriteError),
        TcpOutcome::ReadFailed => Err(TransportError::ReadError),
        TcpOutcome::Reply(buf) => {
            match validate_tcp_frame(buf.as_slice()) {
                Ok(()) => {},
                Err(code) => {
                    return Err(code);
                },
            }
            match DNS::from(buf.as_slice(), TransportProto::TCP) {
                Ok(datagram) => Ok(datagram),
                Err(_) => Err(TransportError::ReadError),
            }
        },
    }
}

} // verus!
