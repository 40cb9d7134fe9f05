//! A bounded first-in first-out queue of frames.
use std::collections::VecDeque;
use vstd::prelude::*;

verus! {

/// A bounded FIFO of byte frames. Offering to a full queue drops the
/// offered frame and leaves the queue as it was.
pub struct FrameQueue {
    frames: VecDeque<Vec<u8>>,
    capacity: usize,
}

/// The queue after offering `f` to `q` with room for `cap` frames.
pub open spec fn offered(q: Seq<Seq<u8>>, cap: nat, f: Seq<u8>) -> Seq<Seq<u8>> {
    if q.len() < cap {
        q.push(f)
    } else {
        q
    }
}

/// The queue after offering each of `fs` in turn.
pub open spec fn offer_all(q: Seq<Seq<u8>>, cap: nat, fs: Seq<Seq<u8>>) -> Seq<Seq<u8>>
    decreases fs.len(),
{
    if fs.len() == 0 {
        q
    } else {
        offer_all(offered(q, cap, fs[0]), cap, fs.drop_first())
    }
}

impl View for FrameQueue {
    type V = Seq<Seq<u8>>;

    closed spec fn view(&self) -> Seq<Seq<u8>> {
        self.frames@.map_values(|f: Vec<u8>| f@)
    }
}

impl FrameQueue {
    /// How many frames the queue holds at most.
    pub closed spec fn cap(&self) -> nat {
        self.capacity as nat
    }

    pub closed spec fn wf(&self) -> bool {
        self.frames@.len() <= self.capacity
    }

    pub fn new(capacity: usize) -> (r: FrameQueue)
        ensures
            r.wf(),
            r@ == Seq::<Seq<u8>>::empty(),
            r.cap() == capacity,
    {
        FrameQueue { frames: VecDeque::new(), capacity }
    }

    pub fn capacity(&self) -> (r: usize)
        ensures
            r == self.cap(),
    {
        self.capacity
    }

    pub fn len(&self) -> (r: usize)
        ensures
            r == self@.len(),
    {
        self.frames.len()
    }

    pub fn is_full(&self) -> (r: bool)
        ensures
            r == (self@.len() >= self.cap()),
    {
        self.frames.len() >= self.capacity
    }

    /// Appends `frame` if there is room, else drops it; says whether it
    /// was kept.
    pub fn offer(&mut self, frame: Vec<u8>) -> (r: bool)
        requires
            old(self).wf(),
        ensures
            final(self).wf(),
            final(self).cap() == old(self).cap(),
            final(self)@ == offered(old(self)@, old(self).cap(), frame@),
            r == (old(self)@.len() < old(self).cap()),
    {
        if self.frames.len() < self.capacity {
            self.frames.push_back(frame);
            assert(self@ =~= old(self)@.push(frame@));
            true
        } else {
            false
        }
    }

    /// Removes and returns the oldest frame, if any.
    pub fn take(&mut self) -> (r: Option<Vec<u8>>)
        requires
            old(self).wf(),
        ensures
            final(self).wf(),
            final(self).cap() == old(self).cap(),
            old(self)@.len() == 0 ==> r.is_none() && final(self)@ == old(self)@,
            old(self)@.len() > 0 ==> r.is_some() && r.unwrap()@ == old(self)@[0]
                && final(self)@ == old(self)@.drop_first(),
    {
        let r = self.frames.pop_front();
        proof {
            if old(self)@.len() > 0 {
                assert(self@ =~= old(self)@.drop_first());
            }
        }
        r
    }
}

/// Offering frames to a bounded queue never duplicates one: the queue keeps
/// what it held, in front, grows by at most the number offered, never beyond
/// its capacity, and every frame it gains is one of those offered.
pub proof fn lemma_offer_all_drops_never_duplicates(
    q: Seq<Seq<u8>>,
    cap: nat,
    fs: Seq<Seq<u8>>,
)
    requires
        q.len() <= cap,
    ensures
        q.len() <= offer_all(q, cap, fs).len() <= q.len() + fs.len(),
        offer_all(q, cap, fs).len() <= cap,
        offer_all(q, cap, fs).subrange(0, q.len() as int) == q,
        forall|i: int|
            q.len() <= i < offer_all(q, cap, fs).len() ==> fs.contains(
                #[trigger] offer_all(q, cap, fs)[i],
            ),
    decreases fs.len(),
{
    if fs.len() > 0 {
        let q1 = offered(q, cap, fs[0]);
        let rest = fs.drop_first();
        lemma_offer_all_drops_never_duplicates(q1, cap, rest);
        let r = offer_all(q, cap, fs);
        assert(r == offer_all(q1, cap, rest));
        assert(r.subrange(0, q1.len() as int) == q1);
        assert(r.subrange(0, q.len() as int) =~= q1.subrange(0, q.len() as int));
        assert(q1.subrange(0, q.len() as int) =~= q);
        assert forall|i: int| q.len() <= i < r.len() implies fs.contains(#[trigger] r[i]) by {
            if i < q1.len() {
                assert(r[i] == r.subrange(0, q1.len() as int)[i]);
                assert(q1[i] == fs[0]);
                assert(fs[0] == fs[0]);
            } else {
                assert(rest.contains(r[i]));
                let j = choose|j: int| 0 <= j < rest.len() && rest[j] == r[i];
                assert(fs[j + 1] == r[i]);
            }
        }
    } else {
        assert(q.subrange(0, q.len() as int) =~= q);
    }
}

} // verus!
