//! The bounded envelope history.
//!
//! An ordered, oldest-first sequence of envelope pairs with a hard cap.
//! After an append, if the length exceeds the cap, the oldest entries are
//! dropped until exactly the retention target remain. The capture side is
//! the sole writer; the presentation side reads snapshots. The caller is
//! expected to hold both operations of one cycle under one lock
//! acquisition when the history is shared across threads.

use vstd::prelude::*;

verus! {

/// What an append followed by a trim leaves in the history: the old entries
/// followed by the appended ones, cut down to the newest `target` of them
/// when the total exceeds `cap`.
pub open spec fn trimmed(
    old_entries: Seq<(i32, i32)>,
    appended: Seq<(i32, i32)>,
    cap: int,
    target: int,
) -> Seq<(i32, i32)> {
    let all = old_entries + appended;
    if all.len() > cap {
        all.subrange(all.len() - target, all.len() as int)
    } else {
        all
    }
}

/// A length-capped, insertion-ordered sequence of envelope pairs.
pub struct History {
    entries: Vec<(i32, i32)>,
    cap: usize,
    target: usize,
}

impl History {
    /// The stored envelope pairs, oldest first.
    pub closed spec fn entries_view(self) -> Seq<(i32, i32)> {
        self.entries@
    }

    /// The hard length cap.
    pub closed spec fn cap(self) -> int {
        self.cap as int
    }

    /// The number of entries retained when a trim fires.
    pub closed spec fn target(self) -> int {
        self.target as int
    }

    /// The retention target never exceeds the cap, and the stored length
    /// never exceeds the cap.
    pub open spec fn wf(self) -> bool {
        self.target() <= self.cap() && self.entries_view().len() <= self.cap()
    }

    /// An empty history with the given cap and retention target.
    pub fn new(cap: usize, target: usize) -> (h: History)
        requires
            target <= cap,
        ensures
            h.wf(),
            h.entries_view() == Seq::<(i32, i32)>::empty(),
            h.cap() == cap,
            h.target() == target,
    {
        let h = History { entries: Vec::new(), cap, target };
        proof {
            assert(h.entries_view() =~= Seq::<(i32, i32)>::empty());
        }
        h
    }

    /// Push the pairs in order onto the tail, then, if the length exceeds
    /// the cap, drop the oldest entries down to the retention target.
    pub fn append_and_trim(&mut self, pairs: &Vec<(i32, i32)>)
        requires
            old(self).wf(),
            old(self).entries_view().len() + pairs@.len() <= usize::MAX,
        ensures
            final(self).wf(),
            final(self).cap() == old(self).cap(),
            final(self).target() == old(self).target(),
            final(self).entries_view() == trimmed(
                old(self).entries_view(),
                pairs@,
                old(self).cap(),
                old(self).target(),
            ),
            final(self).entries_view().len() <= old(self).cap(),
    {
        let ghost all: Seq<(i32, i32)> = old(self).entries_view() + pairs@;
        let mut k: usize = 0;
        while k < pairs.len()
            invariant
                k <= pairs@.len(),
                self.entries@ == old(self).entries_view() + pairs@.subrange(0, k as int),
                self.entries@.len() <= usize::MAX,
                old(self).entries_view().len() + pairs@.len() <= usize::MAX,
                self.cap == old(self).cap,
                self.target == old(self).target,
            decreases pairs@.len() - k,
        {
            self.entries.push(pairs[k]);
            k = k + 1;
            proof {
                assert(old(self).entries_view() + pairs@.subrange(0, k as int)
                    =~= (old(self).entries_view() + pairs@.subrange(0, k - 1)).push(
                    pairs@[k - 1],
                ));
            }
        }
        proof {
            assert(pairs@.subrange(0, pairs@.len() as int) =~= pairs@);
            assert(self.entries@ == all);
        }

        if self.entries.len() > self.cap {
            let excess: usize = self.entries.len() - self.target;
            let mut kept: Vec<(i32, i32)> = Vec::new();
            let total: usize = self.entries.len();
            let mut i: usize = excess;
            while i < total
                invariant
                    excess <= i <= total,
                    total == self.entries@.len(),
                    self.entries@ == all,
                    kept@ =~= all.subrange(excess as int, i as int),
                decreases total - i,
            {
                kept.push(self.entries[i]);
                i = i + 1;
            }
            self.entries = kept;
            proof {
                assert(self.entries@ =~= all.subrange(all.len() - old(self).target(), all.len() as int));
            }
        }
    }

    /// A copy of the current contents, oldest first.
    pub fn snapshot(&self) -> (v: Vec<(i32, i32)>)
        ensures
            v@ == self.entries_view(),
    {
        let mut v: Vec<(i32, i32)> = Vec::new();
        let mut i: usize = 0;
        while i < self.entries.len()
            invariant
                i <= self.entries@.len(),
                v@ =~= self.entries@.subrange(0, i as int),
            decreases self.entries@.len() - i,
        {
            v.push(self.entries[i]);
            i = i + 1;
        }
        proof {
            assert(v@ =~= self.entries_view());
        }
        v
    }

    /// The number of stored pairs.
    pub fn len(&self) -> (n: usize)
        ensures
            n == self.entries_view().len(),
    {
        self.entries.len()
    }
}

} // verus!
