//! Decisions of a connection that reconnects by itself: the caller opens the
//! connection, waits for traffic and reports what happened; the supervisor says
//! what to do next.

use vstd::prelude::*;

verus! {

/// What happened on the connection.
#[derive(Clone, Debug, PartialEq, Eq)]
pub enum LinkEvent<M> {
    /// The connector produced a sink and a stream.
    Connected,
    /// The connector failed.
    ConnectFailed,
    /// A message arrived on the stream.
    Inbound(M),
    /// Reading the stream failed.
    InboundFailed,
    /// The stream had nothing more to give for now.
    InboundEnded,
    /// A message is waiting to be sent.
    Outbound(M),
    /// Writing to the sink failed.
    SendFailed,
    /// The receiver of inbound messages is gone.
    ForwardRefused,
    /// Nobody can queue outbound messages any more.
    OutboundClosed,
}

/// What the caller does next.
#[derive(Clone, Debug, PartialEq, Eq)]
pub enum LinkAction<M> {
    /// Call the connector now.
    Connect,
    /// Sleep for the back-off period, then call the connector.
    PauseThenConnect,
    /// Hand the message to the receiver of inbound messages.
    Forward(M),
    /// Write the message to the sink.
    Send(M),
    /// Wait for the next inbound or outbound message.
    Wait,
    /// End the connection for good.
    Stop,
}

/// Seconds to sleep after a failed connection attempt.
pub const RECONNECT_PAUSE_SECS: u64 = 1;

pub struct Supervisor {
    connected: bool,
}

/// The supervisor's answer to `ev` while connected or not.
pub open spec fn link_step<M>(connected: bool, ev: LinkEvent<M>) -> (bool, LinkAction<M>) {
    match ev {
        LinkEvent::Connected => (true, LinkAction::Wait),
        LinkEvent::ConnectFailed => (false, LinkAction::PauseThenConnect),
        LinkEvent::Inbound(m) => if connected {
            (true, LinkAction::Forward(m))
        } else {
            (false, LinkAction::Wait)
        },
        LinkEvent::InboundFailed => (false, LinkAction::Connect),
        LinkEvent::InboundEnded => (connected, LinkAction::Wait),
        LinkEvent::Outbound(m) => if connected {
            (true, LinkAction::Send(m))
        } else {
            (false, LinkAction::Wait)
        },
        LinkEvent::SendFailed => (false, LinkAction::Connect),
        LinkEvent::ForwardRefused => (connected, LinkAction::Stop),
        LinkEvent::OutboundClosed => (connected, LinkAction::Stop),
    }
}

impl Supervisor {
    pub closed spec fn is_connected(&self) -> bool {
        self.connected
    }

    /// A supervisor that has not connected yet: the caller starts by connecting.
    pub fn new() -> (r: Supervisor)
        ensures
            !r.is_connected(),
    {
        Supervisor { connected: false }
    }

    pub fn connected(&self) -> (r: bool)
        ensures
            r == self.is_connected(),
    {
        self.connected
    }

    pub fn on_event<M>(&mut self, ev: LinkEvent<M>) -> (r: LinkAction<M>)
        ensures
            (final(self).is_connected(), r) == link_step(old(self).is_connected(), ev),
    {
        match ev {
            LinkEvent::Connected => {
                self.connected = true;
                LinkAction::Wait
            },
            LinkEvent::ConnectFailed => {
                self.connected = false;
                LinkAction::PauseThenConnect
            },
            LinkEvent::Inbound(m) => {
                if self.connected {
                    LinkAction::Forward(m)
                } else {
                    LinkAction::Wait
                }
            },
            LinkEvent::InboundFailed => {
                self.connected = false;
                LinkAction::Connect
            },
            LinkEvent::InboundEnded => LinkAction::Wait,
            LinkEvent::Outbound(m) => {
                if self.connected {
                    LinkAction::Send(m)
                } else {
                    LinkAction::Wait
                }
            },
            LinkEvent::SendFailed => {
                self.connected = false;
                LinkAction::Connect
            },
            LinkEvent::ForwardRefused => LinkAction::Stop,
            LinkEvent::OutboundClosed => LinkAction::Stop,
        }
    }
}

} // verus!
