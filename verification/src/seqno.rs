//! Session ids: a counter that lives as long as the process.

use crate::session::{Phase, WsChatSession};
use vstd::prelude::*;

verus! {

/// The id that follows `id`; none follows the last one.
pub open spec fn successor(id: usize) -> Option<usize> {
    if id == usize::MAX {
        None
    } else {
        Some((id + 1) as usize)
    }
}

/// What a counter holds once it has been asked, if it held `held` before:
/// the id it hands out next, or nothing when its ids are spent.
pub open spec fn advanced(held: Option<usize>) -> Option<usize> {
    match held {
        Some(id) => successor(id),
        None => None,
    }
}

/// What a counter holds once it has been asked `n` times, if it held `first`
/// before.
pub open spec fn nth_after(first: Option<usize>, n: nat) -> Option<usize>
    decreases n,
{
    if n == 0 {
        first
    } else {
        advanced(nth_after(first, (n - 1) as nat))
    }
}

/// Hands out session ids in ascending order, starting at zero, each once.
pub struct ConnectionSeq {
    next: Option<usize>,
}

impl View for ConnectionSeq {
    type V = Option<usize>;

    /// The id that the next session gets; nothing once every id has been
    /// handed out.
    closed spec fn view(&self) -> Option<usize> {
        self.next
    }
}

impl ConnectionSeq {
    /// A counter that has handed out nothing yet.
    pub fn new() -> (seq: Self)
        ensures
            seq@ == Some(0usize),
    {
        ConnectionSeq { next: Some(0) }
    }

    /// A counter that goes on where another stopped: it hands out `held`
    /// next, or nothing if `held` is nothing.
    pub fn resuming(held: Option<usize>) -> (seq: Self)
        ensures
            seq@ == held,
    {
        ConnectionSeq { next: held }
    }

    /// Hands out the next id. Once the last id has been handed out there is
    /// none left, and the counter says so from then on.
    pub fn next(&mut self) -> (id: Option<usize>)
        ensures
            id == old(self)@,
            final(self)@ == advanced(old(self)@),
    {
        match self.next {
            Some(id) => {
                self.next = if id == usize::MAX {
                    None
                } else {
                    Some(id + 1)
                };
                Some(id)
            },
            None => None,
        }
    }

    /// Sets up the session of a connection accepted at `now`, under the next
    /// id. There is no session where the ids are spent.
    pub fn accept(&mut self, now: u64) -> (session: Option<WsChatSession>)
        ensures
            session == match old(self)@ {
                Some(id) => Some(WsChatSession { id, hb: now, phase: Phase::Starting }),
                None => None,
            },
            final(self)@ == advanced(old(self)@),
    {
        match self.next() {
            Some(id) => Some(WsChatSession::new(id, now)),
            None => None,
        }
    }
}

/// The `n`-th id after `first` is `first + n` as long as that is an id, and
/// the ids are spent after it.
pub proof fn lemma_nth_after_is_sum(first: usize, n: nat)
    ensures
        nth_after(Some(first), n) == if first + n <= usize::MAX {
            Some((first + n) as usize)
        } else {
            None
        },
    decreases n,
{
    if n > 0 {
        lemma_nth_after_is_sum(first, (n - 1) as nat);
    }
}

/// A counter whose ids are spent stays so.
pub proof fn lemma_spent_stays_spent(n: nat)
    ensures
        nth_after(None, n) is None,
    decreases n,
{
    if n > 0 {
        lemma_spent_stays_spent((n - 1) as nat);
    }
}

/// Ids are handed out in strictly ascending order, so none is handed out
/// twice: of two sessions that a counter gave an id, however far apart and
/// whatever became of the first, the later has the larger id. A counter that
/// gives a later session an id gave every earlier one an id too.
pub proof fn law_ids_strictly_increase(first: Option<usize>, earlier: nat, later: nat)
    requires
        earlier < later,
    ensures
        nth_after(first, later) matches Some(late) ==> {
            &&& nth_after(first, earlier) matches Some(early)
            &&& early < late
        },
{
    match first {
        Some(id) => {
            lemma_nth_after_is_sum(id, earlier);
            lemma_nth_after_is_sum(id, later);
        },
        None => {
            lemma_spent_stays_spent(later);
        },
    }
}

} // verus!
