//! The ordered message store and its retention policy.
use vstd::prelude::*;

use std::collections::VecDeque;

use crate::clock::now_seconds;
use crate::geometry::{lemma_overlap_enlarged, BoundingBox};
use crate::message::Message;

verus! {

/// How long a message is kept: one day, in seconds.
pub const RETENTION_SECONDS: i64 = 86_400;

/// Creation times never decrease along the sequence.
pub open spec fn time_ordered(s: Seq<Message>) -> bool {
    forall|i: int, j: int| 0 <= i <= j < s.len() ==> #[trigger] s[i].created_at <= #[trigger] s[j].created_at
}

/// The messages of `s` whose box overlaps `viewport`, in
/// the order of `s`.
pub open spec fn overlapping(s: Seq<Message>, viewport: BoundingBox) -> Seq<Message>
    decreases s.len(),
{
    if s.len() == 0 {
        Seq::empty()
    } else {
        let rest = overlapping(s.drop_last(), viewport);
        if s.last().bounding_box.spec_overlap(viewport) {
            rest.push(s.last())
        } else {
            rest
        }
    }
}

/// `k` messages at the head of `s` were created before `cutoff`, and `k` is
/// the largest such count.
pub open spec fn evicted_prefix(s: Seq<Message>, cutoff: i64, k: int) -> bool {
    &&& 0 <= k <= s.len()
    &&& forall|i: int| 0 <= i < k ==> #[trigger] s[i].created_at < cutoff
    &&& k < s.len() ==> s[k].created_at >= cutoff
}

/// A message is expired at `now` once it was created before `now` less the
/// retention window.
pub open spec fn expired(m: Message, now: i64) -> bool {
    m.created_at < now - RETENTION_SECONDS
}

/// `msg` can follow the messages of `s` without breaking creation order.
pub open spec fn fits_after(s: Seq<Message>, msg: Message) -> bool {
    s.len() > 0 ==> s.last().created_at <= msg.created_at
}

/// `k` messages at the head of `s` are expired at `now`, and `k` is the
/// largest such count.
pub open spec fn expired_prefix(s: Seq<Message>, now: i64, k: int) -> bool {
    &&& 0 <= k <= s.len()
    &&& forall|i: int| 0 <= i < k ==> expired(#[trigger] s[i], now)
    &&& k < s.len() ==> !expired(s[k], now)
}

/// The contents after `restore(v)` on a store holding `current`: `v` when it
/// is in creation order, else `current` unchanged.
pub open spec fn restored(current: Seq<Message>, v: Seq<Message>) -> Seq<Message> {
    if time_ordered(v) {
        v
    } else {
        current
    }
}

/// The messages, oldest first.
pub struct MessageStore {
    messages: VecDeque<Message>,
}

impl View for MessageStore {
    type V = Seq<Message>;

    closed spec fn view(&self) -> Seq<Message> {
        self.messages@
    }
}

impl MessageStore {
    /// The store keeps its messages in creation order.
    pub open spec fn wf(&self) -> bool {
        time_ordered(self@)
    }

    /// An empty store.
    pub fn new() -> (r: MessageStore)
        ensures
            r@ == Seq::<Message>::empty(),
            r.wf(),
    {
        MessageStore { messages: VecDeque::new() }
    }

    /// The number of messages held.
    pub fn len(&self) -> (r: usize)
        ensures
            r == self@.len(),
    {
        self.messages.len()
    }

    /// The creation time of the newest message, if any.
    pub fn last_created_at(&self) -> (r: Option<i64>)
        ensures
            self@.len() == 0 ==> r is None,
            self@.len() > 0 ==> r == Some(self@.last().created_at),
    {
        let n = self.messages.len();
        if n == 0 {
            None
        } else {
            Some(self.messages[n - 1].created_at)
        }
    }

    /// Adds a message, created no earlier than the newest one, at the tail.
    pub fn append(&mut self, msg: Message)
        requires
            old(self).wf(),
            fits_after(old(self)@, msg),
        ensures
            final(self).wf(),
            final(self)@ == old(self)@.push(msg),
    {
        self.messages.push_back(msg);
    }

    /// Copies, in store order, every message whose box overlaps `viewport`.
    pub fn query(&self, viewport: &BoundingBox) -> (r: Vec<Message>)
        ensures
            r@ == overlapping(self@, *viewport),
    {
        let mut r: Vec<Message> = Vec::new();
        let n = self.messages.len();
        let mut i: usize = 0;
        while i < n
            invariant
                n == self@.len(),
                i <= n,
                r@ == overlapping(self@.subrange(0, i as int), *viewport),
            decreases n - i,
        {
            proof {
                let t = self@.subrange(0, i + 1);
                assert(t.drop_last() =~= self@.subrange(0, i as int));
                assert(t.last() == self@[i as int]);
            }
            let m = &self.messages[i];
            if m.bounding_box.overlap(viewport) {
                r.push(m.duplicate());
            }
            i = i + 1;
        }
        proof {
            assert(self@.subrange(0, n as int) =~= self@);
        }
        r
    }

    /// Removes the longest prefix of messages created before `cutoff` and
    /// returns how many were removed.
    pub fn evict_before(&mut self, cutoff: i64) -> (r: usize)
        requires
            old(self).wf(),
        ensures
            final(self).wf(),
            evicted_prefix(old(self)@, cutoff, r as int),
            final(self)@ == old(self)@.subrange(r as int, old(self)@.len() as int),
    {
        let ghost s0 = self@;
        let n0 = self.messages.len();
        let mut k: usize = 0;
        while self.messages.len() > 0 && self.messages[0].created_at < cutoff
            invariant
                time_ordered(s0),
                n0 == s0.len(),
                k <= s0.len(),
                self@ == s0.subrange(k as int, s0.len() as int),
                forall|i: int| 0 <= i < k ==> #[trigger] s0[i].created_at < cutoff,
            decreases self@.len(),
        {
            self.messages.pop_front();
            k = k + 1;
        }
        k
    }

    /// Removes the longest prefix of messages that are expired at `now` and
    /// returns how many were removed.
    pub fn evict_expired(&mut self, now: i64) -> (r: usize)
        requires
            old(self).wf(),
        ensures
            final(self).wf(),
            expired_prefix(old(self)@, now, r as int),
            final(self)@ == old(self)@.subrange(r as int, old(self)@.len() as int),
    {
        // When `now` is too small for the cutoff, no message is expired.
        let cutoff = if now >= i64::MIN + RETENTION_SECONDS {
            now - RETENTION_SECONDS
        } else {
            i64::MIN
        };
        self.evict_before(cutoff)
    }

    /// Evicts the messages that are expired by the wall clock; returns how
    /// many were removed.
    pub fn reap(&mut self) -> (r: usize)
        requires
            old(self).wf(),
        ensures
            final(self).wf(),
            exists|now: i64| #[trigger] expired_prefix(old(self)@, now, r as int),
            final(self)@ == old(self)@.subrange(r as int, old(self)@.len() as int),
    {
        let now = now_seconds();
        let r = self.evict_expired(now);
        proof {
            assert(expired_prefix(old(self)@, now, r as int));
        }
        r
    }

    /// A copy of every message, in store order.
    pub fn snapshot(&self) -> (r: Vec<Message>)
        ensures
            r@ == self@,
    {
        let mut r: Vec<Message> = Vec::new();
        let n = self.messages.len();
        let mut i: usize = 0;
        while i < n
            invariant
                n == self@.len(),
                i <= n,
                r@ == self@.subrange(0, i as int),
            decreases n - i,
        {
            r.push(self.messages[i].duplicate());
            i = i + 1;
            proof {
                assert(r@ =~= self@.subrange(0, i as int));
            }
        }
        proof {
            assert(self@.subrange(0, n as int) =~= self@);
        }
        r
    }

    /// Replaces the contents with `messages`, which must be in creation
    /// order; otherwise the store is left as it was and `false` returned.
    pub fn restore(&mut self, messages: Vec<Message>) -> (ok: bool)
        requires
            old(self).wf(),
        ensures
            final(self).wf(),
            ok == time_ordered(messages@),
            final(self)@ == restored(old(self)@, messages@),
    {
        if !is_time_ordered(&messages) {
            return false;
        }
        let ghost src = messages@;
        let mut fresh: VecDeque<Message> = VecDeque::new();
        let mut rest = messages;
        let mut taken: Vec<Message> = Vec::new();
        // Move the messages out from the back, then push them in order.
        while rest.len() > 0
            invariant
                rest@ + taken@.reverse() == src,
            decreases rest@.len(),
        {
            let m = rest.pop().unwrap();
            taken.push(m);
            proof {
                assert(rest@ + taken@.reverse() =~= src);
            }
        }
        while taken.len() > 0
            invariant
                fresh@ + taken@.reverse() == src,
            decreases taken@.len(),
        {
            let m = taken.pop().unwrap();
            fresh.push_back(m);
            proof {
                assert(fresh@ + taken@.reverse() =~= src);
            }
        }
        proof {
            assert(fresh@ =~= src);
        }
        self.messages = fresh;
        true
    }
}

/// Whether the creation times never decrease along `messages`.
pub fn is_time_ordered(messages: &Vec<Message>) -> (r: bool)
    ensures
        r == time_ordered(messages@),
{
    let n = messages.len();
    if n == 0 {
        return true;
    }
    let mut i: usize = 1;
    while i < n
        invariant
            1 <= i <= n,
            n == messages@.len(),
            time_ordered(messages@.subrange(0, i as int)),
        decreases n - i,
    {
        if messages[i].created_at < messages[i - 1].created_at {
            proof {
                let s = messages@;
                assert(s[i - 1].created_at > s[i as int].created_at);
            }
            return false;
        }
        proof {
            let s = messages@;
            let t = s.subrange(0, i + 1);
            assert forall|a: int, b: int| 0 <= a <= b < t.len() implies #[trigger] t[a].created_at
                <= #[trigger] t[b].created_at by {
                let u = s.subrange(0, i as int);
                if b < i {
                    assert(u[a] == t[a] && u[b] == t[b]);
                } else if a < i {
                    assert(u[a] == t[a] && u[i - 1] == t[i - 1]);
                }
            }
        }
        i = i + 1;
    }
    proof {
        assert(messages@.subrange(0, n as int) =~= messages@);
    }
    true
}

/// Restoring a snapshot of a well-formed store, onto any store, succeeds
/// and gives the same messages in the same order.
pub proof fn lemma_snapshot_round_trip(store: MessageStore, snap: Seq<Message>, target: Seq<Message>)
    requires
        store.wf(),
        snap == store@,
    ensures
        time_ordered(snap),
        restored(target, snap) == store@,
{
}

/// Evicting a second time with the same cutoff removes nothing: after the
/// first eviction the head is not older than the cutoff.
pub proof fn lemma_evict_idempotent(s: Seq<Message>, cutoff: i64, k: int)
    requires
        evicted_prefix(s, cutoff, k),
    ensures
        evicted_prefix(s.subrange(k, s.len() as int), cutoff, 0),
{
}

/// The query result holds exactly the messages of the store whose box
/// overlaps the viewport, and no more of them than the store holds.
pub proof fn lemma_overlapping_exact(s: Seq<Message>, viewport: BoundingBox)
    ensures
        overlapping(s, viewport).len() <= s.len(),
        forall|m: Message|
            #[trigger] overlapping(s, viewport).contains(m) <==> (s.contains(m)
                && m.bounding_box.spec_overlap(viewport)),
    decreases s.len(),
{
    if s.len() > 0 {
        let init = s.drop_last();
        let rest = overlapping(init, viewport);
        lemma_overlapping_exact(init, viewport);
        assert(s =~= init.push(s.last()));
        assert forall|m: Message| #[trigger] s.contains(m) <==> (init.contains(m) || m == s.last()) by {
            if s.contains(m) && m != s.last() {
                let i = choose|i: int| 0 <= i < s.len() && s[i] == m;
                assert(init[i] == m);
            }
            if init.contains(m) {
                let i = choose|i: int| 0 <= i < init.len() && init[i] == m;
                assert(s[i] == m);
            }
            if m == s.last() {
                assert(s[s.len() - 1] == m);
            }
        }
        assert forall|m: Message| #[trigger] rest.push(s.last()).contains(m) <==> (rest.contains(m)
            || m == s.last()) by {
            let r = rest.push(s.last());
            if r.contains(m) && m != s.last() {
                let i = choose|i: int| 0 <= i < r.len() && r[i] == m;
                assert(rest[i] == m);
            }
            if rest.contains(m) {
                let i = choose|i: int| 0 <= i < rest.len() && rest[i] == m;
                assert(r[i] == m);
            }
            if m == s.last() {
                assert(r[r.len() - 1] == m);
            }
        }
    }
}

/// The positions in `s` of the messages whose box overlaps `viewport`, in
/// increasing order.
pub open spec fn overlap_positions(s: Seq<Message>, viewport: BoundingBox) -> Seq<int>
    decreases s.len(),
{
    if s.len() == 0 {
        Seq::empty()
    } else {
        let rest = overlap_positions(s.drop_last(), viewport);
        if s.last().bounding_box.spec_overlap(viewport) {
            rest.push(s.len() - 1)
        } else {
            rest
        }
    }
}

/// The query result lists, in increasing order of position, each message of
/// the store whose box overlaps the viewport once, and no other.
pub proof fn lemma_overlapping_positions(s: Seq<Message>, viewport: BoundingBox)
    ensures
        overlap_positions(s, viewport).len() == overlapping(s, viewport).len(),
        forall|k: int|
            0 <= k < overlap_positions(s, viewport).len() ==> {
                &&& 0 <= #[trigger] overlap_positions(s, viewport)[k] < s.len()
                &&& overlapping(s, viewport)[k] == s[overlap_positions(s, viewport)[k]]
            },
        forall|k1: int, k2: int|
            0 <= k1 < k2 < overlap_positions(s, viewport).len() ==> #[trigger] overlap_positions(
                s,
                viewport,
            )[k1] < #[trigger] overlap_positions(s, viewport)[k2],
        forall|j: int|
            0 <= j < s.len() ==> (#[trigger] s[j].bounding_box.spec_overlap(viewport)
                <==> overlap_positions(s, viewport).contains(j)),
    decreases s.len(),
{
    if s.len() > 0 {
        let init = s.drop_last();
        let n = s.len() - 1;
        lemma_overlapping_positions(init, viewport);
        let ri = overlap_positions(init, viewport);
        let idx = overlap_positions(s, viewport);
        assert forall|j: int| 0 <= j < n implies s[j] == init[j] by {}
        assert forall|j: int| 0 <= j < s.len() && idx.contains(j) implies #[trigger] s[j].bounding_box.spec_overlap(
            viewport,
        ) by {
            let k = choose|k: int| 0 <= k < idx.len() && idx[k] == j;
            if k < ri.len() {
                assert(ri[k] == j);
                assert(ri.contains(j));
            }
        }
        assert forall|j: int| 0 <= j < s.len() && #[trigger] s[j].bounding_box.spec_overlap(viewport) implies idx.contains(j) by {
            if j < n {
                assert(init[j].bounding_box.spec_overlap(viewport));
                assert(ri.contains(j));
                let k = choose|k: int| 0 <= k < ri.len() && ri[k] == j;
                assert(idx[k] == j);
            } else {
                assert(idx[idx.len() - 1] == j);
            }
        }
    }
}

/// A larger viewport never drops a message that a smaller one inside it
/// returns.
pub proof fn lemma_query_viewport_monotonic(
    s: Seq<Message>,
    small: BoundingBox,
    large: BoundingBox,
    m: Message,
)
    requires
        large.encloses(small),
        overlapping(s, small).contains(m),
    ensures
        overlapping(s, large).contains(m),
{
    lemma_overlapping_exact(s, small);
    lemma_overlapping_exact(s, large);
    lemma_overlap_enlarged(m.bounding_box, small, large);
}

} // verus!
