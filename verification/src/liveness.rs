//! What the heartbeat rules add up to over the life of a session.

use crate::session::{
    elapsed, timed_out, Command, Event, Frame, Phase, WsChatSession, CLIENT_TIMEOUT,
    HEARTBEAT_INTERVAL,
};
use vstd::prelude::*;

verus! {

/// Whether `event` is a liveness signal from the client: a ping or a pong.
pub open spec fn is_signal(event: Event) -> bool {
    match event {
        Event::Inbound(Frame::Ping(_), _) => true,
        Event::Inbound(Frame::Pong, _) => true,
        _ => false,
    }
}

/// When the frame of an inbound event came in.
pub open spec fn arrival(event: Event) -> u64 {
    match event {
        Event::Inbound(_, at) => at,
        _ => 0,
    }
}

/// Whether `event` ends an active session whatever the clock says: a close
/// frame, a protocol error, or a teardown from outside.
pub open spec fn ends(event: Event) -> bool {
    match event {
        Event::Inbound(Frame::Close, _) => true,
        Event::ProtocolError => true,
        Event::Stopped => true,
        _ => false,
    }
}

/// The time of the `k`-th liveness check of a timer that was armed at
/// `armed`.
pub open spec fn check_time(armed: nat, k: nat) -> nat {
    (armed + k * HEARTBEAT_INTERVAL) as nat
}

impl WsChatSession {
    /// The session after the events of `events`, in their order.
    pub open spec fn run(self, events: Seq<Event>) -> Self
        decreases events.len(),
    {
        if events.len() == 0 {
            self
        } else {
            self.run(events.drop_last()).after(events.last())
        }
    }

    /// When the client was last heard before the `upto`-th of `events`: the
    /// arrival of the latest ping or pong among the earlier ones, or what the
    /// session held before them.
    pub open spec fn last_heard(self, events: Seq<Event>, upto: int) -> u64
        decreases upto,
    {
        if upto <= 0 {
            self.hb
        } else if is_signal(events[upto - 1]) {
            arrival(events[upto - 1])
        } else {
            self.last_heard(events, upto - 1)
        }
    }
}

/// A client that has been silent for longer than `CLIENT_TIMEOUT` is dropped
/// by the next liveness check, and is sent no probe.
pub proof fn law_silent_client_is_dropped(session: WsChatSession, now: u64)
    requires
        session.phase == Phase::Active,
        now - session.hb > CLIENT_TIMEOUT,
    ensures
        session.after(Event::Heartbeat(now)).phase == Phase::Stopped,
        session.reaction(Event::Heartbeat(now)) == session.shutdown(),
{
}

/// Liveness checks come every `HEARTBEAT_INTERVAL`, the first one an
/// interval after the timer was armed. So, for a timer armed before the
/// deadline of a client that stays silent, one check falls into the interval
/// that follows the deadline: the session is dropped later than
/// `CLIENT_TIMEOUT` after the client was last heard and no later than
/// `CLIENT_TIMEOUT + HEARTBEAT_INTERVAL` after, and no earlier check drops
/// it.
pub proof fn law_drop_comes_within_one_interval(session: WsChatSession, armed: u64)
    requires
        session.phase == Phase::Active,
        armed <= session.hb + CLIENT_TIMEOUT,
        session.hb + CLIENT_TIMEOUT + HEARTBEAT_INTERVAL <= u64::MAX,
    ensures
        exists|k: nat|
            {
                let at = #[trigger] check_time(armed as nat, k);
                &&& k >= 1
                &&& session.hb + CLIENT_TIMEOUT < at <= session.hb + CLIENT_TIMEOUT
                    + HEARTBEAT_INTERVAL
                &&& session.after(Event::Heartbeat(at as u64)).phase == Phase::Stopped
                &&& forall|earlier: nat|
                    earlier < k ==> !timed_out(
                        session.hb,
                        #[trigger] check_time(armed as nat, earlier) as u64,
                    )
            },
{
    // The first check after the deadline.
    let due: nat = (session.hb + CLIENT_TIMEOUT - armed) as nat;
    let k: nat = due / (HEARTBEAT_INTERVAL as nat) + 1;
    let at = check_time(armed as nat, k);
    assert(session.hb + CLIENT_TIMEOUT < at <= session.hb + CLIENT_TIMEOUT + HEARTBEAT_INTERVAL);
}

/// A ping or a pong at any time starts the client's lease afresh: the
/// session holds the arrival time, and a liveness check that comes no later
/// than `CLIENT_TIMEOUT` after it probes the client and leaves the session
/// open.
pub proof fn law_signal_resets_the_window(session: WsChatSession, signal: Event, check: u64)
    requires
        session.phase == Phase::Active,
        is_signal(signal),
        elapsed(arrival(signal), check) <= CLIENT_TIMEOUT,
    ensures
        session.after(signal).hb == arrival(signal),
        session.after(signal).after(Event::Heartbeat(check)).phase == Phase::Active,
        session.after(signal).reaction(Event::Heartbeat(check)) == seq![Command::Ping],
{
}

/// A session is never closed for inactivity while its client keeps
/// signalling: if nothing else ends the session, and every liveness check
/// comes no later than `CLIENT_TIMEOUT` after the client was last heard, the
/// session stays active and holds the time at which the client was last
/// heard.
pub proof fn law_regular_signals_keep_the_session_open(session: WsChatSession, events: Seq<Event>)
    requires
        session.phase == Phase::Active,
        forall|i: int| 0 <= i < events.len() ==> !ends(#[trigger] events[i]),
        forall|i: int|
            0 <= i < events.len() ==> (#[trigger] events[i] matches Event::Heartbeat(at)
                ==> !timed_out(session.last_heard(events, i), at)),
    ensures
        session.run(events).phase == Phase::Active,
        session.run(events).hb == session.last_heard(events, events.len() as int),
    decreases events.len(),
{
    if events.len() > 0 {
        let before = events.drop_last();
        let n = events.len() - 1;
        lemma_last_heard_of_prefix(session, events, before, n);
        assert forall|i: int| 0 <= i < before.len() implies (#[trigger] before[i] matches
            Event::Heartbeat(at) ==> !timed_out(session.last_heard(before, i), at)) by {
            lemma_last_heard_of_prefix(session, events, before, i);
        }
        law_regular_signals_keep_the_session_open(session, before);
    }
}

/// What was heard before the `upto`-th event depends on the earlier events
/// alone.
proof fn lemma_last_heard_of_prefix(
    session: WsChatSession,
    events: Seq<Event>,
    prefix: Seq<Event>,
    upto: int,
)
    requires
        upto <= prefix.len() <= events.len(),
        forall|i: int| 0 <= i < prefix.len() ==> prefix[i] == events[i],
    ensures
        session.last_heard(prefix, upto) == session.last_heard(events, upto),
    decreases upto,
{
    if upto > 0 {
        lemma_last_heard_of_prefix(session, events, prefix, upto - 1);
    }
}

} // verus!
