//! Histories of a registry: what it went through, and what that leaves.

use crate::server::{rejected, survivors, Connect, Delivery, Disconnect, SessionHandle};
use vstd::prelude::*;
use vstd::relations::injective_on;
use vstd::set_lib::{lemma_int_range, lemma_len_subset, lemma_map_size, set_int_range};

verus! {

/// One thing that happened to a registry.
pub enum Change {
    /// `ChatServer::register` took this message.
    Registered(Connect),
    /// `ChatServer::unregister` took this message.
    Unregistered(Disconnect),
    /// A broadcast got these answers and pruned on them.
    Broadcast(Seq<Delivery>),
}

/// The sessions that a registry tracks after `change`, by the contracts of
/// `register`, `unregister` and `broadcast_active_connections`.
pub open spec fn apply(sessions: Map<usize, SessionHandle>, change: Change) -> Map<
    usize,
    SessionHandle,
> {
    match change {
        Change::Registered(msg) => sessions.insert(msg.id, msg.addr),
        Change::Unregistered(msg) => sessions.remove(msg.id),
        Change::Broadcast(deliveries) => survivors(sessions, deliveries),
    }
}

/// The sessions that a registry tracks after it went through `history` from
/// empty.
pub open spec fn replay(history: Seq<Change>) -> Map<usize, SessionHandle>
    decreases history.len(),
{
    if history.len() == 0 {
        Map::empty()
    } else {
        apply(replay(history.drop_last()), history.last())
    }
}

/// Whether `change` takes the session `id` out of a registry: an unregister
/// of that id, or a broadcast that the session refused.
pub open spec fn removes(change: Change, id: usize) -> bool {
    match change {
        Change::Registered(_) => false,
        Change::Unregistered(msg) => msg.id == id,
        Change::Broadcast(deliveries) => rejected(deliveries).contains(id),
    }
}

/// The id that the `i`-th change registered.
pub open spec fn registered_id(history: Seq<Change>, i: int) -> usize {
    match history[i] {
        Change::Registered(msg) => msg.id,
        _ => 0,
    }
}

/// The `i`-th change is a registration that nothing after it has undone.
pub open spec fn pending(history: Seq<Change>, i: int) -> bool {
    &&& 0 <= i < history.len()
    &&& history[i] is Registered
    &&& forall|j: int|
        i < j < history.len() ==> !removes(#[trigger] history[j], registered_id(history, i))
}

/// The places in `history` of the registrations that nothing has undone.
pub open spec fn pending_registrations(history: Seq<Change>) -> Set<int> {
    Set::new(|i: int| pending(history, i))
}

/// No session is registered while the registry still tracks its id, as is the
/// case where every session gets a fresh id.
pub open spec fn orderly(history: Seq<Change>) -> bool {
    forall|i: int|
        0 <= i < history.len() && (#[trigger] history[i]) is Registered ==> !replay(
            history.take(i),
        ).contains_key(registered_id(history, i))
}

/// Every registration in `history` is of an id that no earlier one
/// registered, as is the case where the ids come from one counter.
pub open spec fn fresh_ids(history: Seq<Change>) -> bool {
    forall|i: int, j: int|
        0 <= i < j < history.len() && history[i] is Registered && history[j] is Registered
            ==> #[trigger] registered_id(history, i) != #[trigger] registered_id(history, j)
}

/// A session that is tracked after `history` was registered in it.
proof fn lemma_tracked_was_registered(history: Seq<Change>, id: usize)
    requires
        replay(history).contains_key(id),
    ensures
        exists|k: int|
            0 <= k < history.len() && history[k] is Registered && #[trigger] registered_id(
                history,
                k,
            ) == id,
    decreases history.len(),
{
    let n = history.len() - 1;
    if history[n] is Registered && registered_id(history, n) == id {
    } else {
        let before = history.drop_last();
        assert(replay(before).contains_key(id));
        lemma_tracked_was_registered(before, id);
        let k = choose|k: int|
            0 <= k < before.len() && before[k] is Registered && #[trigger] registered_id(before, k)
                == id;
        assert(history[k] == before[k]);
        assert(registered_id(history, k) == id);
    }
}

/// A history in which every registration brings a fresh id is orderly.
pub proof fn law_fresh_ids_make_orderly(history: Seq<Change>)
    requires
        fresh_ids(history),
    ensures
        orderly(history),
{
    assert forall|i: int| 0 <= i < history.len() && (#[trigger] history[i]) is Registered implies
        !replay(history.take(i)).contains_key(registered_id(history, i)) by {
        let earlier = history.take(i);
        let id = registered_id(history, i);
        if replay(earlier).contains_key(id) {
            lemma_tracked_was_registered(earlier, id);
            let k = choose|k: int|
                0 <= k < earlier.len() && earlier[k] is Registered && #[trigger] registered_id(
                    earlier,
                    k,
                ) == id;
            assert(earlier[k] == history[k]);
            assert(registered_id(history, k) == registered_id(history, i));
        }
    }
}

/// In an orderly history a session is tracked exactly when a registration of
/// its id is pending, and no id has two pending registrations.
pub proof fn law_tracked_iff_pending(history: Seq<Change>)
    requires
        orderly(history),
    ensures
        forall|id: usize| #[trigger]
            replay(history).contains_key(id) <==> exists|i: int|
                pending(history, i) && #[trigger] registered_id(history, i) == id,
        forall|i: int, j: int|
            pending(history, i) && pending(history, j) && #[trigger] registered_id(history, i)
                == #[trigger] registered_id(history, j) ==> i == j,
    decreases history.len(),
{
    if history.len() == 0 {
        return ;
    }
    let n = history.len() - 1;
    let before = history.drop_last();
    let last = history.last();
    assert forall|i: int| 0 <= i < before.len() && (#[trigger] before[i]) is Registered implies
        !replay(before.take(i)).contains_key(registered_id(before, i)) by {
        assert(history.take(i) =~= before.take(i));
    }
    law_tracked_iff_pending(before);
    // A registration that was pending before the last change is pending after
    // it unless the last change undoes it.
    assert forall|i: int| 0 <= i < n implies (pending(history, i) <==> pending(before, i)
        && !removes(last, registered_id(before, i))) by {
        if pending(before, i) && !removes(last, registered_id(before, i)) {
            assert forall|j: int| i < j < history.len() implies !removes(
                #[trigger] history[j],
                registered_id(history, i),
            ) by {
                if j < n {
                    assert(history[j] == before[j]);
                }
            }
        }
    }
    assert forall|id: usize| #[trigger]
        replay(history).contains_key(id) <==> exists|i: int|
            pending(history, i) && #[trigger] registered_id(history, i) == id by {
        if replay(history).contains_key(id) && !(last is Registered && registered_id(history, n)
            == id) {
            assert(replay(before).contains_key(id));
        }
        if exists|i: int| pending(history, i) && #[trigger] registered_id(history, i) == id {
            let i = choose|i: int|
                pending(history, i) && #[trigger] registered_id(history, i) == id;
            if i < n {
                assert(replay(before).contains_key(id));
            }
        }
    }
}

/// However sessions come and go, the registry tracks as many sessions as
/// there are registrations that no unregister and no pruning has undone
/// since. This is stated of the histories in which no id is registered while
/// it is still tracked: a second registration replaces the first and counts
/// once.
pub proof fn law_size_counts_pending_registrations(history: Seq<Change>)
    requires
        orderly(history),
    ensures
        pending_registrations(history).finite(),
        replay(history).dom().finite(),
        replay(history).len() == pending_registrations(history).len(),
{
    let places = pending_registrations(history);
    let id_at = |i: int| registered_id(history, i);
    lemma_int_range(0, history.len() as int);
    lemma_len_subset(places, set_int_range(0, history.len() as int));
    law_tracked_iff_pending(history);
    assert(injective_on(id_at, places));
    assert(places.map(id_at) =~= replay(history).dom()) by {
        assert forall|id: usize| replay(history).dom().contains(id) implies places.map(
            id_at,
        ).contains(id) by {
            let i = choose|i: int|
                pending(history, i) && #[trigger] registered_id(history, i) == id;
            assert(places.contains(i) && id == id_at(i));
        }
    }
    lemma_map_size(places, replay(history).dom(), id_at);
}

} // verus!
