use vstd::prelude::*;
use std::collections::HashSet;

verus! {

broadcast use vstd::std_specs::hash::group_hash_axioms;

/// One element of a notification payload, as far as the wait logic reads it.
#[derive(Clone, Copy, Debug, PartialEq, Eq, Structural)]
pub enum Element {
    /// An integer of any width the wire format carries.
    Int(i128),
    /// Anything that is not an integer.
    Other,
}

/// The buffer a close notification names, if the payload has exactly that shape:
/// a single integer that fits in an `i64`.
pub open spec fn closed_buffer(payload: Seq<Element>) -> Option<i64> {
    if payload.len() == 1 {
        match payload[0] {
            Element::Int(n) => if i64::MIN <= n <= i64::MAX {
                Some(n as i64)
            } else {
                None
            },
            Element::Other => None,
        }
    } else {
        None
    }
}

/// The payload of the close notification for buffer `id`.
pub open spec fn close_payload(id: i64) -> Seq<Element> {
    seq![Element::Int(id as i128)]
}

/// The pending buffers after one notification with `payload` arrives.
pub open spec fn after_receive(pending: Set<i64>, payload: Seq<Element>) -> Set<i64> {
    match closed_buffer(payload) {
        Some(id) => pending.remove(id),
        None => pending,
    }
}

/// The pending buffers after the notifications `payloads` arrive, in order.
pub open spec fn after_all(pending: Set<i64>, payloads: Seq<Seq<Element>>) -> Set<i64>
    decreases payloads.len(),
{
    if payloads.len() == 0 {
        pending
    } else {
        after_all(after_receive(pending, payloads[0]), payloads.drop_first())
    }
}

/// Reads a notification payload as a close notification.
pub fn parse_close(payload: &Vec<Element>) -> (r: Option<i64>)
    ensures
        r == closed_buffer(payload@),
{
    if payload.len() == 1 {
        match &payload[0] {
            Element::Int(n) => if i64::MIN as i128 <= *n && *n <= i64::MAX as i128 {
                Some(*n as i64)
            } else {
                None
            },
            Element::Other => None,
        }
    } else {
        None
    }
}

/// The pending set after the close notifications for `ids` arrive is the
/// pending set less those buffers.
pub proof fn lemma_closes_remove(pending: Set<i64>, ids: Seq<i64>)
    ensures
        after_all(pending, ids.map_values(|id: i64| close_payload(id))) == pending.difference(
            ids.to_set(),
        ),
    decreases ids.len(),
{
    let payloads = ids.map_values(|id: i64| close_payload(id));
    if ids.len() == 0 {
        assert(ids.to_set() =~= Set::<i64>::empty());
        assert(pending.difference(ids.to_set()) =~= pending);
    } else {
        let id = ids[0];
        let rest = ids.drop_first();
        assert(payloads.drop_first() =~= rest.map_values(|id: i64| close_payload(id)));
        assert(closed_buffer(payloads[0]) == Some(id));
        lemma_closes_remove(pending.remove(id), rest);
        assert(ids.to_set() =~= rest.to_set().insert(id)) by {
            assert forall|x: i64| ids.to_set().contains(x) <==> rest.to_set().insert(id).contains(
                x,
            ) by {
                if ids.contains(x) && x != id {
                    let k = choose|k: int| 0 <= k < ids.len() && ids[k] == x;
                    assert(rest[k - 1] == x);
                }
                if rest.contains(x) {
                    let k = choose|k: int| 0 <= k < rest.len() && rest[k] == x;
                    assert(ids[k + 1] == x);
                }
                assert(ids[0] == id);
            }
        }
        assert(pending.remove(id).difference(rest.to_set()) =~= pending.difference(ids.to_set()));
    }
}

/// Once a close notification has come for every tracked buffer, in any order,
/// nothing is pending and the wait ends.
pub proof fn lemma_all_closed_drains(pending: Set<i64>, ids: Seq<i64>)
    requires
        ids.no_duplicates(),
        ids.to_set() == pending,
    ensures
        after_all(pending, ids.map_values(|id: i64| close_payload(id))) == Set::<i64>::empty(),
{
    lemma_closes_remove(pending, ids);
    assert(pending.difference(ids.to_set()) =~= Set::<i64>::empty());
}

/// Each notification removes at most one buffer, so the set never shrinks
/// faster than notifications arrive.
pub proof fn lemma_at_most_one_per_notification(pending: Set<i64>, payloads: Seq<Seq<Element>>)
    requires
        pending.finite(),
    ensures
        after_all(pending, payloads).finite(),
        after_all(pending, payloads).len() + payloads.len() >= pending.len(),
    decreases payloads.len(),
{
    if payloads.len() > 0 {
        let next = after_receive(pending, payloads[0]);
        lemma_at_most_one_per_notification(next, payloads.drop_first());
    }
}

/// With fewer notifications than tracked buffers, of whatever shape, some
/// buffer is still pending and the wait goes on.
pub proof fn lemma_fewer_notifications_keep_waiting(
    pending: Set<i64>,
    payloads: Seq<Seq<Element>>,
)
    requires
        pending.finite(),
        payloads.len() < pending.len(),
    ensures
        after_all(pending, payloads) != Set::<i64>::empty(),
{
    lemma_at_most_one_per_notification(pending, payloads);
    if after_all(pending, payloads) == Set::<i64>::empty() {
        assert(Set::<i64>::empty().len() == 0);
    }
}

/// A close notification for a buffer that is not pending changes nothing, so
/// a wait that had not ended goes on.
pub proof fn lemma_close_of_unknown_ignored(pending: Set<i64>, id: i64)
    requires
        !pending.contains(id),
    ensures
        after_receive(pending, close_payload(id)) == pending,
{
    assert(closed_buffer(close_payload(id)) == Some(id));
    assert(pending.remove(id) =~= pending);
}

/// A notification that is not a single integer (one that is not an integer,
/// or holds more or fewer than one element) changes nothing.
pub proof fn lemma_malformed_ignored(pending: Set<i64>, payload: Seq<Element>)
    requires
        payload.len() != 1 || payload[0] == Element::Other,
    ensures
        after_receive(pending, payload) == pending,
{
}

/// What one notification did to the pending set.
#[derive(Clone, Copy, Debug, PartialEq, Eq, Structural)]
pub enum Received {
    /// A pending buffer closed and left the set.
    Closed(i64),
    /// A buffer closed that was not pending; nothing changed.
    NotPending(i64),
    /// The payload was not a close notification; nothing changed.
    Unexpected,
}

/// The buffers opened by this client whose close notification has not come yet.
pub struct PendingSet {
    ids: HashSet<i64>,
}

impl View for PendingSet {
    type V = Set<i64>;

    closed spec fn view(&self) -> Set<i64> {
        self.ids@
    }
}

impl PendingSet {
    pub closed spec fn wf(&self) -> bool {
        self.ids@.finite()
    }

    /// An empty set.
    pub fn new() -> (r: PendingSet)
        ensures
            r.wf(),
            r@ == Set::<i64>::empty(),
    {
        PendingSet { ids: HashSet::new() }
    }

    /// Records that buffer `id` was opened and has its close hook.
    pub fn track(&mut self, id: i64)
        requires
            old(self).wf(),
        ensures
            final(self).wf(),
            final(self)@ == old(self)@.insert(id),
    {
        self.ids.insert(id);
    }

    /// Handles one notification: a close notification for a pending buffer
    /// removes it; any other notification leaves the set as it was.
    pub fn receive(&mut self, payload: &Vec<Element>) -> (r: Received)
        requires
            old(self).wf(),
        ensures
            final(self).wf(),
            final(self)@ == after_receive(old(self)@, payload@),
            r == match closed_buffer(payload@) {
                Some(id) => if old(self)@.contains(id) {
                    Received::Closed(id)
                } else {
                    Received::NotPending(id)
                },
                None => Received::Unexpected,
            },
    {
        match parse_close(payload) {
            Some(id) => {
                if self.ids.remove(&id) {
                    Received::Closed(id)
                } else {
                    Received::NotPending(id)
                }
            },
            None => Received::Unexpected,
        }
    }

    /// Whether buffer `id` is still pending.
    pub fn contains(&self, id: i64) -> (r: bool)
        ensures
            r == self@.contains(id),
    {
        self.ids.contains(&id)
    }

    /// The number of pending buffers.
    pub fn len(&self) -> (r: usize)
        ensures
            r == self@.len(),
    {
        self.ids.len()
    }

    /// Whether every tracked buffer has closed, so the wait is over.
    pub fn is_drained(&self) -> (r: bool)
        ensures
            r == (self@ == Set::<i64>::empty()),
    {
        let r = self.ids.is_empty();
        proof {
            if !r {
                assert(!(self@ =~= Set::<i64>::empty()));
            }
        }
        r
    }
}

} // verus!
