//! Decisions of the TCP proxy that stands between two environments.
//!
//! The proxy refuses connections while the link is cut, and otherwise passes bytes on in
//! both directions. It injects the delay of the link, and tears a connection down when it
//! sees that the link was cut.
use vstd::prelude::*;
use vstd::string::*;
use crate::netsim::types::LinkChecker;
use crate::text::number::{decimal, to_decimal};

verus! {

/// The number of bytes that one read takes at most.
pub const BUFFER_SIZE: usize = 16_384;

/// The time between two looks at a connection, in milliseconds.
pub const MONITOR_INTERVAL_MS: u64 = 100;

/// The local address on which a port is served.
pub fn local_target(port: u16) -> (r: String)
    ensures
        r@ == "127.0.0.1:"@ + decimal(port as nat),
{
    let mut r: String = "127.0.0.1:".to_owned();
    r.append(to_decimal(port as u64).as_str());
    r
}

/// What the accepting side of a proxy learns.
#[derive(Debug, Clone, Copy, PartialEq, Eq, Structural)]
pub enum AcceptEvent {
    /// The proxy is shut down.
    Cancelled,
    /// Accepting a connection failed.
    AcceptFailed,
    /// A connection came in.
    Accepted,
    /// Connecting to the target failed.
    ConnectFailed,
    /// The target is connected too.
    Connected,
}

/// What the accepting side of a proxy does next.
#[derive(Debug, Clone, Copy, PartialEq, Eq, Structural)]
pub enum AcceptAction {
    /// Stop.
    Stop,
    /// Drop the connection, if there is one, and wait for the next.
    Next,
    /// Connect to the target.
    Connect,
    /// Pass bytes between the connection and the target, and wait for the next connection.
    Serve,
}

/// What follows from an event on the accepting side, given whether the link is active.
pub open spec fn accept_step(event: AcceptEvent, active: bool) -> AcceptAction {
    match event {
        AcceptEvent::Cancelled => AcceptAction::Stop,
        AcceptEvent::AcceptFailed => AcceptAction::Next,
        AcceptEvent::Accepted => if active {
            AcceptAction::Connect
        } else {
            AcceptAction::Next
        },
        AcceptEvent::ConnectFailed => AcceptAction::Next,
        AcceptEvent::Connected => AcceptAction::Serve,
    }
}

/// Decides what the accepting side does after an event.
pub fn on_accept<C: LinkChecker>(checker: &C, env_a: &str, env_b: &str, event: AcceptEvent) -> (r:
    AcceptAction)
    ensures
        r == accept_step(event, checker.active(env_a@, env_b@)),
{
    match event {
        AcceptEvent::Cancelled => AcceptAction::Stop,
        AcceptEvent::AcceptFailed => AcceptAction::Next,
        AcceptEvent::Accepted => {
            if checker.is_active(env_a, env_b) {
                AcceptAction::Connect
            } else {
                AcceptAction::Next
            }
        },
        AcceptEvent::ConnectFailed => AcceptAction::Next,
        AcceptEvent::Connected => AcceptAction::Serve,
    }
}

/// What one direction of a connection learns.
#[derive(Debug, Clone, Copy, PartialEq, Eq, Structural)]
pub enum PumpEvent {
    /// The connection is shut down.
    Cancelled,
    /// A read ended with this number of bytes; none is the end of the stream.
    Read(usize),
    /// A read failed.
    ReadFailed,
    /// The bytes were written.
    Written,
    /// Writing failed.
    WriteFailed,
}

/// What one direction of a connection does next.
#[derive(Debug, Clone, Copy, PartialEq, Eq, Structural)]
pub enum PumpAction {
    /// Close the connection.
    Close,
    /// Read again.
    Read,
    /// Wait for some milliseconds, then write the bytes that were read.
    Forward { delay_ms: u64, count: usize },
}

/// What follows from an event on a connection, given the state of the link.
pub open spec fn pump_step(event: PumpEvent, active: bool, delay: u64) -> PumpAction {
    match event {
        PumpEvent::Cancelled => PumpAction::Close,
        PumpEvent::Read(n) => if n > 0 && active {
            PumpAction::Forward { delay_ms: delay, count: n }
        } else {
            PumpAction::Close
        },
        PumpEvent::ReadFailed => PumpAction::Close,
        PumpEvent::Written => PumpAction::Read,
        PumpEvent::WriteFailed => PumpAction::Close,
    }
}

/// Decides what one direction of a connection does after an event.
pub fn on_pump<C: LinkChecker>(checker: &C, env_a: &str, env_b: &str, event: PumpEvent) -> (r:
    PumpAction)
    ensures
        r == pump_step(event, checker.active(env_a@, env_b@), checker.delay(env_a@, env_b@)),
{
    match event {
        PumpEvent::Cancelled => PumpAction::Close,
        PumpEvent::Read(n) => {
            if n == 0 || !checker.is_active(env_a, env_b) {
                PumpAction::Close
            } else {
                PumpAction::Forward { delay_ms: checker.latency_ms(env_a, env_b), count: n }
            }
        },
        PumpEvent::ReadFailed => PumpAction::Close,
        PumpEvent::Written => PumpAction::Read,
        PumpEvent::WriteFailed => PumpAction::Close,
    }
}

/// No byte passes and no connection is made while the link is cut.
pub proof fn law_cut_link_carries_nothing(accept: AcceptEvent, pump: PumpEvent, delay: u64)
    ensures
        accept_step(accept, false) != AcceptAction::Connect,
        !(pump_step(pump, false, delay) is Forward),
{
}

/// Every byte that is read while the link is active passes, after the delay of the link.
pub proof fn law_active_link_carries_all(count: usize, delay: u64)
    requires
        count > 0,
    ensures
        pump_step(PumpEvent::Read(count), true, delay) == (PumpAction::Forward {
            delay_ms: delay,
            count,
        }),
{
}

/// How a proxy takes connections: it stops when it is shut down and only then, connects to the
/// target only for a connection that came in over an active link, serves only what is connected,
/// and otherwise waits for the next connection.
pub proof fn law_accepting(event: AcceptEvent, active: bool)
    ensures
        accept_step(event, active) is Stop <==> event is Cancelled,
        accept_step(event, active) is Connect <==> event is Accepted && active,
        accept_step(event, active) is Serve <==> event is Connected,
        accept_step(event, active) is Next <==> event is AcceptFailed || event is ConnectFailed || (
        event is Accepted && !active),
{
}

/// How a proxy passes bytes: what was read over an active link is forwarded whole after the
/// delay, what was written is followed by the next read, and everything else, the end of the
/// stream among it, closes the connection.
pub proof fn law_pumping(event: PumpEvent, active: bool, delay: u64)
    ensures
        pump_step(event, active, delay) is Read <==> event is Written,
        pump_step(event, active, delay) is Forward <==> active && (event matches PumpEvent::Read(n)
            && n > 0),
        pump_step(event, active, delay) matches PumpAction::Forward { delay_ms, count } ==> delay_ms
            == delay && event == PumpEvent::Read(count),
        pump_step(event, active, delay) is Close <==> event is Cancelled || event is ReadFailed
            || event is WriteFailed || (event matches PumpEvent::Read(n) && (n == 0 || !active)),
{
}

} // verus!
