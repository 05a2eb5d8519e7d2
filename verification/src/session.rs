//! The liveness protocol of one client connection.
//!
//! A session is a small state machine. Whoever owns the connection feeds it
//! events, each stamped with the reading of a monotonic clock in
//! nanoseconds, and carries out the commands it answers with.

use crate::server::{Connect, Disconnect, OutboundMessage, SessionHandle};
use vstd::prelude::*;

verus! {

/// How often a session checks on its client, in nanoseconds.
pub const HEARTBEAT_INTERVAL: u64 = 5_000_000_000;

/// How long a client may stay silent before its session is closed, in
/// nanoseconds.
pub const CLIENT_TIMEOUT: u64 = 10_000_000_000;

/// An inbound frame, reduced to what the protocol looks at.
pub enum Frame {
    /// A liveness probe from the client, with its payload.
    Ping(String),
    /// The client's answer to a probe.
    Pong,
    /// The client asks to close.
    Close,
    /// A text payload; it carries no meaning here.
    Text,
    /// A binary payload; it carries no meaning here.
    Binary,
    /// Anything else.
    Nop,
}

/// Where a session is in its life.
#[derive(Clone, Copy, Debug, PartialEq, Eq, Structural)]
pub enum Phase {
    Starting,
    Active,
    Stopped,
}

/// What can happen to a session.
pub enum Event {
    /// The connection is up; the handle reaches this session's client.
    Started(SessionHandle),
    /// A frame came in at the given time.
    Inbound(Frame, u64),
    /// The transport met a malformed frame.
    ProtocolError,
    /// The heartbeat timer fired at the given time.
    Heartbeat(u64),
    /// The registry pushed a message.
    Broadcast(OutboundMessage),
    /// The connection was torn down from outside.
    Stopped,
}

/// What a session asks of the owner of its connection.
pub enum Command {
    /// Fire `Event::Heartbeat` every `every` nanoseconds from now on.
    ArmHeartbeat { every: u64 },
    /// Hand the message to the registry.
    Register(Connect),
    /// Hand the message to the registry, without retrying.
    Unregister(Disconnect),
    /// Send a ping frame with an empty payload.
    Ping,
    /// Send a pong frame with this payload.
    Pong(String),
    /// Send a text frame with this content.
    Text(String),
    /// Close the connection and release the timer.
    Stop,
}

/// The time that passed between two clock readings; zero where the clock
/// seems to have run backwards.
pub open spec fn elapsed(since: u64, now: u64) -> nat {
    if now >= since {
        (now - since) as nat
    } else {
        0
    }
}

/// Whether a client last heard at `last_seen` has been silent for too long
/// at `now`.
pub open spec fn timed_out(last_seen: u64, now: u64) -> bool {
    elapsed(last_seen, now) > CLIENT_TIMEOUT
}

/// One client connection's liveness state.
pub struct WsChatSession {
    /// The id under which the registry knows this session.
    pub id: usize,
    /// When the client last sent a ping or a pong; the creation time before
    /// the first.
    pub hb: u64,
    pub phase: Phase,
}

impl WsChatSession {
    /// The session once it has come to rest.
    pub open spec fn halted(self) -> Self {
        WsChatSession { id: self.id, hb: self.hb, phase: Phase::Stopped }
    }

    /// The session with a liveness signal recorded at `now`.
    pub open spec fn refreshed(self, now: u64) -> Self {
        WsChatSession { id: self.id, hb: now, phase: self.phase }
    }

    /// The commands of a session that comes to rest by its own decision.
    pub open spec fn shutdown(self) -> Seq<Command> {
        seq![Command::Stop, Command::Unregister(Disconnect { id: self.id })]
    }

    /// The state that `event` leaves the session in. An event for which the
    /// current phase has no transition leaves the session as it is.
    pub open spec fn after(self, event: Event) -> Self {
        match (self.phase, event) {
            (Phase::Starting, Event::Started(_)) => WsChatSession {
                id: self.id,
                hb: self.hb,
                phase: Phase::Active,
            },
            (Phase::Active, Event::Inbound(Frame::Ping(_), now)) => self.refreshed(now),
            (Phase::Active, Event::Inbound(Frame::Pong, now)) => self.refreshed(now),
            (Phase::Active, Event::Inbound(Frame::Close, _)) => self.halted(),
            (Phase::Active, Event::ProtocolError) => self.halted(),
            (Phase::Active, Event::Heartbeat(now)) => if timed_out(self.hb, now) {
                self.halted()
            } else {
                self
            },
            (Phase::Starting, Event::Stopped) => self.halted(),
            (Phase::Active, Event::Stopped) => self.halted(),
            _ => self,
        }
    }

    /// The commands that the session answers `event` with, in the order in
    /// which they are to be carried out.
    pub open spec fn reaction(self, event: Event) -> Seq<Command> {
        match (self.phase, event) {
            (Phase::Starting, Event::Started(addr)) => seq![
                Command::ArmHeartbeat { every: HEARTBEAT_INTERVAL },
                Command::Register(Connect { id: self.id, addr }),
            ],
            (Phase::Active, Event::Inbound(Frame::Ping(payload), _)) => seq![
                Command::Pong(payload),
            ],
            (Phase::Active, Event::Inbound(Frame::Close, _)) => self.shutdown(),
            (Phase::Active, Event::ProtocolError) => self.shutdown(),
            (Phase::Active, Event::Heartbeat(now)) => if timed_out(self.hb, now) {
                self.shutdown()
            } else {
                seq![Command::Ping]
            },
            (Phase::Active, Event::Broadcast(msg)) => seq![Command::Text(msg.0)],
            (Phase::Starting, Event::Stopped) => seq![
                Command::Unregister(Disconnect { id: self.id }),
            ],
            (Phase::Active, Event::Stopped) => seq![
                Command::Unregister(Disconnect { id: self.id }),
            ],
            _ => Seq::empty(),
        }
    }

    /// A session for a connection accepted at `now`, not yet started.
    pub fn new(id: usize, now: u64) -> (session: Self)
        ensures
            session == (WsChatSession { id, hb: now, phase: Phase::Starting }),
    {
        WsChatSession { id, hb: now, phase: Phase::Starting }
    }

    /// Ends the session by its own decision.
    fn stop(&mut self) -> (out: Vec<Command>)
        ensures
            *final(self) == old(self).halted(),
            out@ == old(self).shutdown(),
    {
        self.phase = Phase::Stopped;
        let mut out: Vec<Command> = Vec::new();
        out.push(Command::Stop);
        out.push(Command::Unregister(Disconnect { id: self.id }));
        out
    }

    /// The connection is up: the session becomes active, arms its heartbeat
    /// and registers under its id with the handle to its own client.
    pub fn started(&mut self, addr: SessionHandle) -> (out: Vec<Command>)
        ensures
            *final(self) == old(self).after(Event::Started(addr)),
            out@ == old(self).reaction(Event::Started(addr)),
    {
        let mut out: Vec<Command> = Vec::new();
        match self.phase {
            Phase::Starting => {
                self.phase = Phase::Active;
                out.push(Command::ArmHeartbeat { every: HEARTBEAT_INTERVAL });
                out.push(Command::Register(Connect { id: self.id, addr }));
            },
            _ => {},
        }
        out
    }

    /// The connection was torn down from outside: the registry is told once.
    pub fn stopped(&mut self) -> (out: Vec<Command>)
        ensures
            *final(self) == old(self).after(Event::Stopped),
            out@ == old(self).reaction(Event::Stopped),
    {
        let mut out: Vec<Command> = Vec::new();
        match self.phase {
            Phase::Stopped => {},
            _ => {
                self.phase = Phase::Stopped;
                out.push(Command::Unregister(Disconnect { id: self.id }));
            },
        }
        out
    }

    /// A message from the registry is passed on to the client word for word.
    pub fn handle_broadcast(&mut self, msg: OutboundMessage) -> (out: Vec<Command>)
        ensures
            *final(self) == old(self).after(Event::Broadcast(msg)),
            out@ == old(self).reaction(Event::Broadcast(msg)),
    {
        let mut out: Vec<Command> = Vec::new();
        match self.phase {
            Phase::Active => {
                out.push(Command::Text(msg.0));
            },
            _ => {},
        }
        out
    }

    /// An inbound frame at `now`. A ping or a pong renews the client's
    /// lease, and a ping is answered with a pong of the same payload. A
    /// close frame ends the session. Text and binary payloads are dropped.
    pub fn handle(&mut self, frame: Frame, now: u64) -> (out: Vec<Command>)
        ensures
            *final(self) == old(self).after(Event::Inbound(frame, now)),
            out@ == old(self).reaction(Event::Inbound(frame, now)),
    {
        match self.phase {
            Phase::Active => {},
            _ => {
                return Vec::new();
            },
        }
        match frame {
            Frame::Ping(payload) => {
                self.hb = now;
                let mut out: Vec<Command> = Vec::new();
                out.push(Command::Pong(payload));
                out
            },
            Frame::Pong => {
                self.hb = now;
                Vec::new()
            },
            Frame::Close => self.stop(),
            Frame::Text => Vec::new(),
            Frame::Binary => Vec::new(),
            Frame::Nop => Vec::new(),
        }
    }

    /// The transport met a malformed frame: the session ends as on a close
    /// frame.
    pub fn protocol_error(&mut self) -> (out: Vec<Command>)
        ensures
            *final(self) == old(self).after(Event::ProtocolError),
            out@ == old(self).reaction(Event::ProtocolError),
    {
        match self.phase {
            Phase::Active => self.stop(),
            _ => Vec::new(),
        }
    }

    /// The liveness check at `now`: a client that has been silent for more
    /// than `CLIENT_TIMEOUT` is dropped without a probe, any other is
    /// probed.
    pub fn hb(&mut self, now: u64) -> (out: Vec<Command>)
        ensures
            *final(self) == old(self).after(Event::Heartbeat(now)),
            out@ == old(self).reaction(Event::Heartbeat(now)),
    {
        match self.phase {
            Phase::Active => {},
            _ => {
                return Vec::new();
            },
        }
        let silent: u64 = if now >= self.hb {
            now - self.hb
        } else {
            0
        };
        if silent > CLIENT_TIMEOUT {
            self.stop()
        } else {
            let mut out: Vec<Command> = Vec::new();
            out.push(Command::Ping);
            out
        }
    }

    /// Feeds one event to the session and returns its commands.
    pub fn apply(&mut self, event: Event) -> (out: Vec<Command>)
        ensures
            *final(self) == old(self).after(event),
            out@ == old(self).reaction(event),
    {
        match event {
            Event::Started(addr) => self.started(addr),
            Event::Inbound(frame, now) => self.handle(frame, now),
            Event::ProtocolError => self.protocol_error(),
            Event::Heartbeat(now) => self.hb(now),
            Event::Broadcast(msg) => self.handle_broadcast(msg),
            Event::Stopped => self.stopped(),
        }
    }
}

} // verus!
