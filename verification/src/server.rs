//! The registry of connected sessions and its periodic broadcast.

use crate::text::{active_message, active_text};
use actix::Message;
use actix::Recipient;
use std::collections::HashMap;
use vstd::prelude::*;
use vstd::set_lib::lemma_len_subset;
use vstd::std_specs::hash::spec_keys_iter;
use vstd::std_specs::iter::IteratorSpec;

verus! {

/// How often the registry broadcasts, in nanoseconds.
pub const BROADCAST_INTERVAL: u64 = 5_000_000_000;

/// Text that the registry pushes to one session.
#[derive(Debug)]
pub struct OutboundMessage(pub String);

impl Message for OutboundMessage {
    type Result = ();
}

/// The capability to push text to exactly one session. The registry only
/// borrows it for delivery; the connection stays with the session.
///
/// It holds an `actix::Recipient<OutboundMessage>`, a type that the verifier
/// cannot be told of because it is bounded by actix's `Message` trait. So the
/// whole struct is opaque to the verifier: nothing is known of a handle but
/// its identity, and nothing is assumed of it.
#[verifier::external_body]
pub struct SessionHandle(pub Recipient<OutboundMessage>);

/// A new session asks to be tracked.
pub struct Connect {
    pub id: usize,
    pub addr: SessionHandle,
}

impl Message for Connect {
    type Result = ();
}

/// A session reports that it is gone.
pub struct Disconnect {
    pub id: usize,
}

impl Message for Disconnect {
    type Result = ();
}

/// Asks `futures::task::is_in_task` whether the caller runs on a task of
/// the futures runtime, as the code of every actor does. The answer depends
/// on where the call is made from, so nothing is claimed of it.
#[verifier::external_body]
fn on_task() -> (yes: bool) {
    futures::task::is_in_task()
}

/// Offers `text` to the session behind `handle` by calling
/// `actix::Recipient::try_send` with a fresh `OutboundMessage`, and reports
/// whether the session's mailbox took it. The mailbox refuses when it is
/// closed or full, which depends on the session and not on the arguments, so
/// nothing is claimed of the answer.
///
/// When the message fills the mailbox up, `try_send` registers the running
/// task with it, and panics where there is none. No precondition can speak
/// of the running task, so the one caller asks `on_task` first and makes no
/// call off a task.
#[verifier::external_body]
fn try_deliver(handle: &SessionHandle, text: &String) -> (accepted: bool) {
    handle.0.try_send(OutboundMessage(text.clone())).is_ok()
}

/// How one delivery attempt of a broadcast went.
pub struct Delivery {
    /// The session that the message was offered to.
    pub id: usize,
    /// Whether the session's mailbox took it.
    pub accepted: bool,
}

/// What one broadcast did.
pub struct BroadcastReport {
    /// The message that was offered to every session.
    pub message: String,
    /// The attempts, in the order in which they were made.
    pub deliveries: Vec<Delivery>,
}

/// The sessions that `deliveries` offered a message to, attempt by attempt.
pub open spec fn targets(deliveries: Seq<Delivery>) -> Seq<usize> {
    Seq::new(deliveries.len(), |i: int| deliveries[i].id)
}

/// The sessions that refused a message in `deliveries`.
pub open spec fn rejected(deliveries: Seq<Delivery>) -> Set<usize> {
    Set::new(
        |id: usize|
            exists|i: int|
                0 <= i < deliveries.len() && (#[trigger] deliveries[i]).id == id
                    && !deliveries[i].accepted,
    )
}

/// The sessions that stay tracked after `deliveries`: a session that refused
/// a message is taken for dead.
pub open spec fn survivors(
    sessions: Map<usize, SessionHandle>,
    deliveries: Seq<Delivery>,
) -> Map<usize, SessionHandle> {
    sessions.remove_keys(rejected(deliveries))
}

/// `deliveries` holds one attempt for each of `sessions` and no other.
pub open spec fn one_attempt_each(
    deliveries: Seq<Delivery>,
    sessions: Map<usize, SessionHandle>,
) -> bool {
    &&& targets(deliveries).no_duplicates()
    &&& targets(deliveries).to_set() == sessions.dom()
}

/// One more attempt adds its session to those that refused, if it was
/// refused.
proof fn lemma_rejected_push(deliveries: Seq<Delivery>, last: Delivery)
    ensures
        rejected(deliveries.push(last)) == if last.accepted {
            rejected(deliveries)
        } else {
            rejected(deliveries).insert(last.id)
        },
{
    let longer = deliveries.push(last);
    let expected = if last.accepted {
        rejected(deliveries)
    } else {
        rejected(deliveries).insert(last.id)
    };
    assert forall|id: usize| rejected(longer).contains(id) implies expected.contains(id) by {
        let i = choose|i: int|
            0 <= i < longer.len() && (#[trigger] longer[i]).id == id && !longer[i].accepted;
        if i < deliveries.len() {
            assert(deliveries[i] == longer[i]);
        }
    }
    assert forall|id: usize| expected.contains(id) implies rejected(longer).contains(id) by {
        if rejected(deliveries).contains(id) {
            let i = choose|i: int|
                0 <= i < deliveries.len() && (#[trigger] deliveries[i]).id == id
                    && !deliveries[i].accepted;
            assert(longer[i] == deliveries[i]);
        } else {
            assert(longer[deliveries.len() as int] == last);
        }
    }
}

/// Unregistering a session twice does what unregistering it once does, and
/// unregistering a session that is not tracked changes nothing: the size of
/// the registry goes down by one for a tracked session and stays otherwise.
pub proof fn law_unregister_is_idempotent(sessions: Map<usize, SessionHandle>, id: usize)
    requires
        sessions.dom().finite(),
    ensures
        sessions.remove(id).remove(id) == sessions.remove(id),
        !sessions.contains_key(id) ==> sessions.remove(id) == sessions,
        sessions.remove(id).len() == if sessions.contains_key(id) {
            sessions.len() - 1
        } else {
            sessions.len() as int
        },
{
    if sessions.contains_key(id) {
        sessions.lemma_remove_key_len(id);
    } else {
    }
}

/// Unregistering a session that was registered under a fresh id gives back
/// the registry as it was before the two.
pub proof fn law_unregister_undoes_register(
    sessions: Map<usize, SessionHandle>,
    id: usize,
    addr: SessionHandle,
)
    requires
        !sessions.contains_key(id),
    ensures
        sessions.insert(id, addr).remove(id) == sessions,
{
    assert(sessions.insert(id, addr).remove(id) =~= sessions);
}

/// After a broadcast that made one attempt per session, every session that
/// is still tracked was offered the message exactly once and took it.
pub proof fn law_survivors_took_the_message_once(
    sessions: Map<usize, SessionHandle>,
    deliveries: Seq<Delivery>,
    id: usize,
)
    requires
        one_attempt_each(deliveries, sessions),
        survivors(sessions, deliveries).contains_key(id),
    ensures
        exists|i: int|
            {
                &&& 0 <= i < deliveries.len()
                &&& #[trigger] deliveries[i] == (Delivery { id, accepted: true })
                &&& forall|j: int|
                    0 <= j < deliveries.len() && (#[trigger] deliveries[j]).id == id ==> j == i
            },
{
    let ids = targets(deliveries);
    let i = choose|i: int| 0 <= i < ids.len() && ids[i] == id;
    assert forall|j: int| 0 <= j < deliveries.len() && (#[trigger] deliveries[j]).id == id implies j
        == i by {
        assert(ids[j] == ids[i]);
    }
}

/// A session that refuses a broadcast is not tracked after it, whatever the
/// other sessions did, and no later broadcast brings it back. The registry
/// shrinks by the tracked sessions that refused, so the next broadcast tells
/// of the smaller count.
pub proof fn law_unreachable_sessions_are_pruned(
    sessions: Map<usize, SessionHandle>,
    deliveries: Seq<Delivery>,
    later: Seq<Delivery>,
    id: usize,
)
    requires
        sessions.dom().finite(),
        sessions.contains_key(id),
        rejected(deliveries).contains(id),
    ensures
        !survivors(sessions, deliveries).contains_key(id),
        !survivors(survivors(sessions, deliveries), later).contains_key(id),
        survivors(sessions, deliveries).len() == sessions.len() - rejected(deliveries).intersect(
            sessions.dom(),
        ).len(),
        survivors(sessions, deliveries).len() < sessions.len(),
{
    let gone = rejected(deliveries).intersect(sessions.dom());
    lemma_len_subset(gone, sessions.dom());
    assert(sessions.remove_keys(gone) =~= survivors(sessions, deliveries));
    sessions.lemma_remove_keys_len(gone);
    if gone.len() == 0 {
        gone.lemma_len0_is_empty();
    }
}

/// Tracks the connected sessions and tells them how many they are.
pub struct ChatServer {
    sessions: HashMap<usize, SessionHandle>,
}

impl View for ChatServer {
    type V = Map<usize, SessionHandle>;

    closed spec fn view(&self) -> Map<usize, SessionHandle> {
        self.sessions@
    }
}

impl Default for ChatServer {
    /// A registry that tracks nobody.
    fn default() -> (server: Self)
        ensures
            server@ == Map::<usize, SessionHandle>::empty(),
    {
        ChatServer::new()
    }
}

impl ChatServer {
    /// A registry tracks finitely many sessions.
    pub proof fn lemma_tracks_finitely_many(&self)
        ensures
            self@.dom().finite(),
    {
        broadcast use vstd::std_specs::hash::group_hash_axioms;

    }

    /// A registry that tracks nobody.
    pub fn new() -> (server: Self)
        ensures
            server@ == Map::<usize, SessionHandle>::empty(),
    {
        ChatServer { sessions: HashMap::new() }
    }

    /// The number of sessions that the registry considers connected.
    pub fn size(&self) -> (n: usize)
        ensures
            n == self@.len(),
    {
        broadcast use vstd::std_specs::hash::group_hash_axioms;

        self.sessions.len()
    }

    /// Whether the registry considers the session `id` connected.
    pub fn contains(&self, id: usize) -> (present: bool)
        ensures
            present == self@.contains_key(id),
    {
        broadcast use vstd::std_specs::hash::group_hash_axioms;

        self.sessions.contains_key(&id)
    }

    /// Tracks the session of `msg`. A handle kept under the same id is
    /// replaced.
    pub fn register(&mut self, msg: Connect)
        ensures
            final(self)@ == old(self)@.insert(msg.id, msg.addr),
            final(self)@.len() == if old(self)@.contains_key(msg.id) {
                old(self)@.len()
            } else {
                old(self)@.len() + 1
            },
    {
        broadcast use vstd::std_specs::hash::group_hash_axioms;

        self.sessions.insert(msg.id, msg.addr);
    }

    /// Forgets the session of `msg`; an id that is not tracked changes
    /// nothing.
    pub fn unregister(&mut self, msg: Disconnect)
        ensures
            final(self)@ == old(self)@.remove(msg.id),
            !final(self)@.contains_key(msg.id),
            !old(self)@.contains_key(msg.id) ==> final(self)@ == old(self)@,
            final(self)@.len() == if old(self)@.contains_key(msg.id) {
                old(self)@.len() - 1
            } else {
                old(self)@.len() as int
            },
    {
        broadcast use vstd::std_specs::hash::group_hash_axioms;

        proof {
            law_unregister_is_idempotent(self@, msg.id);
        }
        self.sessions.remove(&msg.id);
    }

    /// The ids of the tracked sessions, each once, in no particular order.
    pub fn ids(&self) -> (ids: Vec<usize>)
        ensures
            ids@.no_duplicates(),
            ids@.to_set() == self@.dom(),
    {
        broadcast use vstd::std_specs::hash::group_hash_axioms;

        let mut ids: Vec<usize> = Vec::new();
        for key in it: self.sessions.keys()
            invariant
                it.seq() == spec_keys_iter(&self.sessions).remaining(),
                ids@ == it.seq().unref().take(it.index()),
        {
            ids.push(*key);
        }
        assert(ids@ =~= spec_keys_iter(&self.sessions).remaining().unref());
        ids
    }

    /// Forgets every session that refused a message in `deliveries`.
    pub fn prune(&mut self, deliveries: &Vec<Delivery>)
        ensures
            final(self)@ == survivors(old(self)@, deliveries@),
    {
        broadcast use vstd::std_specs::hash::group_hash_axioms;

        let mut i: usize = 0;
        while i < deliveries.len()
            invariant
                i <= deliveries.len(),
                self@ == survivors(old(self)@, deliveries@.take(i as int)),
            decreases deliveries.len() - i,
        {
            proof {
                lemma_rejected_push(deliveries@.take(i as int), deliveries@[i as int]);
                assert(deliveries@.take(i as int).push(deliveries@[i as int]) =~= deliveries@.take(
                    i + 1,
                ));
            }
            if !deliveries[i].accepted {
                self.sessions.remove(&deliveries[i].id);
            }
            i = i + 1;
        }
        assert(deliveries@.take(i as int) =~= deliveries@);
    }

    /// Tells every tracked session how many sessions are tracked, and
    /// forgets those that do not take the message.
    ///
    /// A broadcast is made on a task of the actor system only, because a
    /// message that fills a session's mailbox up makes the actor system look
    /// for the running task. Off a task there is no report and the registry
    /// stays as it is.
    ///
    /// On a task, each session is offered the message once, through the
    /// handle it is tracked with; whether it takes it is for the session to
    /// say. The report holds the message and every answer, and the sessions
    /// that stay are those that `prune` keeps on these answers.
    pub fn broadcast_active_connections(&mut self) -> (outcome: Option<BroadcastReport>)
        ensures
            match outcome {
                Some(report) => {
                    &&& report.message@ == active_text(old(self)@.len())
                    &&& one_attempt_each(report.deliveries@, old(self)@)
                    &&& report.deliveries@.len() == old(self)@.len()
                    &&& final(self)@ == survivors(old(self)@, report.deliveries@)
                },
                None => final(self)@ == old(self)@,
            },
    {
        if on_task() {
            Some(self.broadcast_on_task())
        } else {
            None
        }
    }

    /// The broadcast itself, for a caller that runs on a task.
    fn broadcast_on_task(&mut self) -> (report: BroadcastReport)
        ensures
            report.message@ == active_text(old(self)@.len()),
            one_attempt_each(report.deliveries@, old(self)@),
            report.deliveries@.len() == old(self)@.len(),
            final(self)@ == survivors(old(self)@, report.deliveries@),
    {
        broadcast use vstd::std_specs::hash::group_hash_axioms;

        let message: String = active_message(self.sessions.len());
        let ids: Vec<usize> = self.ids();
        let mut deliveries: Vec<Delivery> = Vec::new();
        let mut i: usize = 0;
        while i < ids.len()
            invariant
                i <= ids.len(),
                ids@.to_set() == self@.dom(),
                self@ == self.sessions@,
                deliveries@.len() == i,
                targets(deliveries@) == ids@.take(i as int),
            decreases ids.len() - i,
        {
            let id: usize = ids[i];
            let handle: &SessionHandle = self.sessions.get(&id).unwrap();
            let accepted: bool = try_deliver(handle, &message);
            let ghost before = deliveries@;
            deliveries.push(Delivery { id, accepted });
            assert forall|j: int| 0 <= j < i + 1 implies targets(deliveries@)[j] == ids@[j] by {
                if j < i {
                    assert(targets(before)[j] == ids@.take(i as int)[j]);
                }
            }
            i = i + 1;
        }
        assert(ids@.take(i as int) =~= ids@);
        proof {
            ids@.unique_seq_to_set();
        }
        self.prune(&deliveries);
        BroadcastReport { message, deliveries }
    }
}

} // verus!
