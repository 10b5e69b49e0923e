use vstd::prelude::*;
use vstd::string::*;

verus! {

/// One payload handed to one subscriber.
pub struct Delivery {
    pub subscriber: u64,
    pub payload: String,
}

/// The subscribers that a list of deliveries reaches, in order.
pub open spec fn delivered_to(ds: Seq<Delivery>) -> Seq<u64> {
    ds.map_values(|d: Delivery| d.subscriber)
}

/// A publish/subscribe relay between one connection and its consumers. It keeps
/// no payloads: a late subscriber misses what was published before.
pub struct EventBus {
    next_id: u64,
    subscribers: Vec<u64>,
}

impl View for EventBus {
    type V = Seq<u64>;

    /// The current subscribers, in order of subscription.
    closed spec fn view(&self) -> Seq<u64> {
        self.subscribers@
    }
}

/// Holds of every handle but `id`.
pub open spec fn other_than(id: u64) -> spec_fn(u64) -> bool {
    |x: u64| x != id
}

/// `s` without the element `id`.
pub open spec fn without(s: Seq<u64>, id: u64) -> Seq<u64> {
    s.filter(other_than(id))
}

/// Unsubscribing is idempotent: removing a handle a second time changes nothing.
pub proof fn law_unsubscribe_idempotent(s: Seq<u64>, id: u64)
    ensures
        without(without(s, id), id) == without(s, id),
    decreases s.len(),
{
    reveal(Seq::filter);
    if s.len() > 0 {
        law_unsubscribe_idempotent(s.drop_last(), id);
        let t = without(s.drop_last(), id);
        if s.last() != id {
            assert(t.push(s.last()).drop_last() =~= t);
        }
    }
}

impl EventBus {
    /// Subscribers are in increasing order of handle, and every handle given out
    /// is below the next one.
    pub closed spec fn wf(&self) -> bool {
        &&& forall|i: int, j: int|
            0 <= i < j < self.subscribers@.len() ==> self.subscribers@[i] < self.subscribers@[j]
        &&& forall|i: int| 0 <= i < self.subscribers@.len() ==> self.subscribers@[i] < self.next_id
    }

    /// The handle that the next subscription gets.
    pub closed spec fn next_handle(&self) -> u64 {
        self.next_id
    }

    /// Whether another subscription can still be given a fresh handle.
    pub open spec fn has_room(&self) -> bool {
        self.next_handle() < u64::MAX
    }

    pub proof fn lemma_unique(&self)
        requires
            self.wf(),
        ensures
            self@.no_duplicates(),
    {
        assert forall|i: int, j: int|
            0 <= i < self@.len() && 0 <= j < self@.len() && i != j implies self@[i] != self@[j] by {
            if i < j {
                assert(self.subscribers@[i] < self.subscribers@[j]);
            } else {
                assert(self.subscribers@[j] < self.subscribers@[i]);
            }
        }
    }

    /// A bus with no subscribers.
    pub fn new() -> (r: EventBus)
        ensures
            r.wf(),
            r.next_handle() == 0,
            r@ == Seq::<u64>::empty(),
    {
        EventBus { next_id: 0, subscribers: Vec::new() }
    }

    /// Adds a subscriber at the end and returns its handle, which no current
    /// subscriber has; `None`, with nothing changed, once handles are exhausted.
    pub fn subscribe(&mut self) -> (r: Option<u64>)
        requires
            old(self).wf(),
        ensures
            final(self).wf(),
            old(self).has_room() ==> {
                &&& r == Some(old(self).next_handle())
                &&& !old(self)@.contains(old(self).next_handle())
                &&& final(self)@ == old(self)@.push(old(self).next_handle())
                &&& final(self).next_handle() == old(self).next_handle() + 1
            },
            !old(self).has_room() ==> r is None && *final(self) == *old(self),
    {
        if self.next_id == u64::MAX {
            return None;
        }
        let id = self.next_id;
        self.subscribers.push(id);
        self.next_id = self.next_id + 1;
        Some(id)
    }

    /// Removes a subscriber; removing one that is not subscribed changes nothing.
    pub fn unsubscribe(&mut self, id: u64)
        requires
            old(self).wf(),
        ensures
            final(self).wf(),
            final(self)@ == without(old(self)@, id),
            forall|x: u64| #[trigger] final(self)@.contains(x) <==> old(self)@.contains(x) && x != id,
            final(self).next_handle() == old(self).next_handle(),
    {
        let ghost s = self.subscribers@;
        let mut kept: Vec<u64> = Vec::new();
        let mut k: usize = 0;
        while k < self.subscribers.len()
            invariant
                s == self.subscribers@,
                self.wf(),
                k <= s.len(),
                kept@ == s.take(k as int).filter(other_than(id)),
                forall|i: int| 0 <= i < kept@.len() ==> kept@[i] < self.next_id,
                forall|i: int, j: int| 0 <= i < j < kept@.len() ==> kept@[i] < kept@[j],
                k < s.len() ==> forall|i: int| 0 <= i < kept@.len() ==> kept@[i] < s[k as int],
            decreases s.len() - k,
        {
            let x = self.subscribers[k];
            proof {
                assert(s.take(k + 1).drop_last() =~= s.take(k as int));
                reveal(Seq::filter);
            }
            if x != id {
                kept.push(x);
            }
            k = k + 1;
        }
        proof {
            assert(s.take(s.len() as int) =~= s);
            s.filter_lemma(other_than(id));
            assert forall|x: u64| #[trigger] kept@.contains(x) <==> s.contains(x) && x != id by {
                if s.contains(x) && x != id {
                    let i = choose|i: int| 0 <= i < s.len() && s[i] == x;
                    s.lemma_filter_contains(other_than(id), i);
                }
                if kept@.contains(x) {
                    let i = choose|i: int| 0 <= i < kept@.len() && kept@[i] == x;
                    s.lemma_filter_pred(other_than(id), i);
                    s.lemma_filter_contains_rev(other_than(id), x);
                }
            }
        }
        self.subscribers = kept;
    }

    /// Hands `payload` to every current subscriber, once each, in order of subscription.
    pub fn publish(&self, payload: &str) -> (r: Vec<Delivery>)
        requires
            self.wf(),
        ensures
            delivered_to(r@) == self@,
            forall|i: int| 0 <= i < r@.len() ==> (#[trigger] r@[i]).payload@ == payload@,
            forall|id: u64| #[trigger] delivered_to(r@).to_multiset().count(id) == if self@.contains(id) {
                1nat
            } else {
                0nat
            },
    {
        let mut out: Vec<Delivery> = Vec::new();
        let mut k: usize = 0;
        while k < self.subscribers.len()
            invariant
                k <= self.subscribers@.len(),
                out@.len() == k,
                forall|i: int| 0 <= i < k ==> (#[trigger] out@[i]).subscriber == self.subscribers@[i],
                forall|i: int| 0 <= i < out@.len() ==> (#[trigger] out@[i]).payload@ == payload@,
            decreases self.subscribers@.len() - k,
        {
            out.push(Delivery { subscriber: self.subscribers[k], payload: String::from_str(payload) });
            k = k + 1;
        }
        assert(delivered_to(out@) =~= self.subscribers@);
        proof {
            self.lemma_unique();
            self.subscribers@.lemma_multiset_has_no_duplicates();
            assert forall|id: u64| #[trigger] delivered_to(out@).to_multiset().count(id) == if self@.contains(id) {
                1nat
            } else {
                0nat
            } by {
                self.subscribers@.to_multiset_ensures();
            }
        }
        out
    }
}

} // verus!
