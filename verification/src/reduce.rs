//! Peak-hold downsampling of interleaved stereo samples.
//!
//! A contiguous run of canonical samples is cut into fixed chunks of
//! [`CHUNK_SIZE`] interleaved samples. Each chunk is deinterleaved into a
//! left channel (even offsets) and a right channel (odd offsets), and each
//! channel is reduced to its signed peak deviation from zero: whichever of
//! the channel's minimum and maximum has the larger absolute value, ties
//! going to the maximum. Samples past the last complete chunk are carried
//! over to the next buffer.

use vstd::prelude::*;

verus! {

/// Number of interleaved samples in one analysis chunk (1024 per channel).
pub const CHUNK_SIZE: usize = 2048;

/// Absolute value of a sample, as an unbounded integer.
pub open spec fn abs_val(v: i32) -> int {
    if v < 0 {
        -(v as int)
    } else {
        v as int
    }
}

/// Minimum of a non-empty sequence of samples.
pub open spec fn seq_min(s: Seq<i32>) -> i32
    recommends
        s.len() > 0,
    decreases s.len(),
{
    if s.len() <= 1 {
        s[0]
    } else {
        let m = seq_min(s.drop_last());
        if s.last() < m {
            s.last()
        } else {
            m
        }
    }
}

/// Maximum of a non-empty sequence of samples.
pub open spec fn seq_max(s: Seq<i32>) -> i32
    recommends
        s.len() > 0,
    decreases s.len(),
{
    if s.len() <= 1 {
        s[0]
    } else {
        let m = seq_max(s.drop_last());
        if s.last() > m {
            s.last()
        } else {
            m
        }
    }
}

/// The operand with the larger absolute value; ties resolve to the maximum.
pub open spec fn pick_deviation(mn: i32, mx: i32) -> i32 {
    if abs_val(mn) > abs_val(mx) {
        mn
    } else {
        mx
    }
}

/// Signed peak deviation from zero of one channel; an empty channel yields 0.
pub open spec fn chan_deviation(s: Seq<i32>) -> i32 {
    if s.len() == 0 {
        0
    } else {
        pick_deviation(seq_min(s), seq_max(s))
    }
}

/// The samples of one channel of an interleaved run: those at offsets
/// congruent to `parity` modulo 2, in order.
pub open spec fn channel(s: Seq<i32>, parity: int) -> Seq<i32>
    recommends
        0 <= parity < 2,
{
    Seq::new(((s.len() + 1 - parity) / 2) as nat, |i: int| s[2 * i + parity])
}

/// Negation of a deviation, saturating at the smallest representable value.
pub open spec fn negated(v: i32) -> i32 {
    if v == i32::MIN {
        i32::MAX
    } else {
        (-(v as int)) as i32
    }
}

/// The envelope pair of one complete chunk: signed peak deviation of the
/// left (even-offset) and right (odd-offset) channel, the left one negated
/// when `negate_left` is set.
pub open spec fn chunk_pair(chunk: Seq<i32>, negate_left: bool) -> (i32, i32) {
    let l = chan_deviation(channel(chunk, 0));
    let r = chan_deviation(channel(chunk, 1));
    (if negate_left { negated(l) } else { l }, r)
}

/// The envelope pairs of all complete chunks of a run, in order.
pub open spec fn chunk_pairs(s: Seq<i32>, negate_left: bool) -> Seq<(i32, i32)> {
    Seq::new(
        ((s.len() as int) / (CHUNK_SIZE as int)) as nat,
        |i: int| chunk_pair(s.subrange(i * (CHUNK_SIZE as int), (i + 1) * (CHUNK_SIZE as int)), negate_left),
    )
}

/// The samples of a run past its last complete chunk.
pub open spec fn leftover(s: Seq<i32>) -> Seq<i32> {
    s.subrange(s.len() - ((s.len() as int) % (CHUNK_SIZE as int)), s.len() as int)
}

/// A channel with no samples yields a deviation of exactly zero.
pub proof fn lemma_empty_channel_deviation()
    ensures
        chan_deviation(Seq::<i32>::empty()) == 0,
{
}

/// Reduction is invariant under buffer fragmentation: cutting a stream after
/// `a` and feeding the rest as `b` yields the same envelope pairs and the
/// same final carry-over as feeding the whole stream at once. The pairs of
/// the whole stream are the pairs of `a` followed by the pairs of `a`'s
/// leftover prepended to `b`, and the leftovers agree.
pub proof fn lemma_split_invariance(a: Seq<i32>, b: Seq<i32>, negate_left: bool)
    ensures
        chunk_pairs(a + b, negate_left) == chunk_pairs(a, negate_left) + chunk_pairs(
            leftover(a) + b,
            negate_left,
        ),
        leftover(a + b) == leftover(leftover(a) + b),
{
    let cs = CHUNK_SIZE as int;
    let la = a.len() as int;
    let lb = b.len() as int;
    let k = la / cs;
    let ra = la % cs;
    vstd::arithmetic::div_mod::lemma_fundamental_div_mod(la, cs);
    vstd::arithmetic::div_mod::lemma_mod_bound(la, cs);
    let t = leftover(a);
    assert(t.len() == ra);
    let x2 = ra + lb;
    let n2 = x2 / cs;
    let m2 = x2 % cs;
    vstd::arithmetic::div_mod::lemma_fundamental_div_mod(x2, cs);
    vstd::arithmetic::div_mod::lemma_mod_bound(x2, cs);
    vstd::arithmetic::div_mod::lemma_div_pos_is_pos(x2, cs);
    assert(la + lb == cs * (k + n2) + m2);
    vstd::arithmetic::div_mod::lemma_fundamental_div_mod_converse(la + lb, cs, k + n2, m2);
    vstd::arithmetic::div_mod::lemma_div_pos_is_pos(la, cs);

    assert forall|i: int| 0 <= i < k implies chunk_pairs(a + b, negate_left)[i] == chunk_pairs(
        a,
        negate_left,
    )[i] by {
        assert((a + b).subrange(i * cs, (i + 1) * cs) =~= a.subrange(i * cs, (i + 1) * cs));
    }
    assert forall|i: int| k <= i < k + n2 implies chunk_pairs(a + b, negate_left)[i]
        == chunk_pairs(t + b, negate_left)[i - k] by {
        assert((a + b).subrange(i * cs, (i + 1) * cs) =~= (t + b).subrange(
            (i - k) * cs,
            (i - k + 1) * cs,
        ));
    }
    assert(chunk_pairs(a + b, negate_left) =~= chunk_pairs(a, negate_left) + chunk_pairs(
        t + b,
        negate_left,
    ));
    assert(leftover(a + b) =~= leftover(t + b));
}

/// Signed peak deviation from zero of a channel's samples.
///
/// Returns whichever of the channel's minimum and maximum has the larger
/// absolute value, the maximum on a tie, and 0 for an empty channel.
pub fn channel_deviation(samples: &Vec<i32>) -> (d: i32)
    ensures
        d == chan_deviation(samples@),
{
    if samples.len() == 0 {
        return 0;
    }
    let mut mn: i32 = samples[0];
    let mut mx: i32 = samples[0];
    let mut j: usize = 1;
    while j < samples.len()
        invariant
            1 <= j <= samples@.len(),
            mn == seq_min(samples@.subrange(0, j as int)),
            mx == seq_max(samples@.subrange(0, j as int)),
        decreases samples@.len() - j,
    {
        let s = samples[j];
        proof {
            assert(samples@.subrange(0, j + 1).drop_last() =~= samples@.subrange(0, j as int));
            assert(samples@.subrange(0, j + 1).last() == samples@[j as int]);
        }
        if s < mn {
            mn = s;
        }
        if s > mx {
            mx = s;
        }
        j = j + 1;
    }
    proof {
        assert(samples@.subrange(0, samples@.len() as int) =~= samples@);
    }
    let amn: i64 = if mn < 0 { -(mn as i64) } else { mn as i64 };
    let amx: i64 = if mx < 0 { -(mx as i64) } else { mx as i64 };
    if amn > amx { mn } else { mx }
}

/// Copy one channel (samples at offsets of the given parity) out of the
/// chunk of `CHUNK_SIZE` samples that starts at `start`.
fn extract_channel(v: &Vec<i32>, start: usize, parity: usize) -> (ch: Vec<i32>)
    requires
        parity < 2,
        start + CHUNK_SIZE <= v@.len(),
    ensures
        ch@ == channel(v@.subrange(start as int, start + CHUNK_SIZE), parity as int),
{
    let n: usize = (CHUNK_SIZE + 1 - parity) / 2;
    let vlen: usize = v.len();
    let mut ch: Vec<i32> = Vec::new();
    let mut j: usize = 0;
    while j < n
        invariant
            parity < 2,
            n == (CHUNK_SIZE + 1 - parity) / 2,
            v@.len() == vlen,
            start + CHUNK_SIZE <= v@.len(),
            j <= n,
            ch@ =~= Seq::new(j as nat, |i: int| v@[start + 2 * i + parity]),
        decreases n - j,
    {
        proof {
            assert(2 * j + parity < CHUNK_SIZE);
        }
        ch.push(v[start + 2 * j + parity]);
        j = j + 1;
    }
    proof {
        assert(ch@ =~= channel(v@.subrange(start as int, start + CHUNK_SIZE), parity as int));
    }
    ch
}

/// Negate a deviation, saturating at the smallest representable value.
fn saturating_neg(v: i32) -> (r: i32)
    ensures
        r == negated(v),
{
    if v == i32::MIN {
        i32::MAX
    } else {
        -v
    }
}

/// The carry-over buffer and sign configuration of the reduction pipeline.
///
/// Between buffers the reducer retains the samples past the last complete
/// chunk, always fewer than [`CHUNK_SIZE`] of them.
pub struct Reducer {
    carry: Vec<i32>,
    negate_left: bool,
}

impl Reducer {
    /// The samples carried over from the previous buffer, in order.
    pub closed spec fn carry_view(self) -> Seq<i32> {
        self.carry@
    }

    /// Whether the left-channel deviation is negated before it is reported.
    pub closed spec fn negate_left_flag(self) -> bool {
        self.negate_left
    }

    /// The carry-over buffer never holds a complete chunk.
    pub open spec fn wf(self) -> bool {
        self.carry_view().len() < CHUNK_SIZE
    }

    /// A reducer with an empty carry-over buffer.
    pub fn new(negate_left: bool) -> (r: Reducer)
        ensures
            r.wf(),
            r.carry_view() == Seq::<i32>::empty(),
            r.negate_left_flag() == negate_left,
    {
        let r = Reducer { carry: Vec::new(), negate_left };
        proof {
            assert(r.carry_view() =~= Seq::<i32>::empty());
        }
        r
    }

    /// The number of samples currently carried over.
    pub fn carry_len(&self) -> (n: usize)
        ensures
            n == self.carry_view().len(),
    {
        self.carry.len()
    }

    /// Reduce one buffer of canonical samples to envelope pairs.
    ///
    /// The carried-over samples are prepended to the input; every complete
    /// chunk of the combined run is reduced to one envelope pair, and the
    /// samples past the last complete chunk become the new carry-over.
    pub fn process(&mut self, input: &Vec<i32>) -> (pairs: Vec<(i32, i32)>)
        requires
            old(self).wf(),
            old(self).carry_view().len() + input@.len() <= usize::MAX,
        ensures
            final(self).wf(),
            final(self).negate_left_flag() == old(self).negate_left_flag(),
            pairs@ == chunk_pairs(old(self).carry_view() + input@, old(self).negate_left_flag()),
            pairs@.len() == ((old(self).carry_view().len() + input@.len()) as int) / (CHUNK_SIZE as int),
            final(self).carry_view() == leftover(old(self).carry_view() + input@),
    {
        let ghost whole: Seq<i32> = old(self).carry_view() + input@;
        let ghost neg: bool = old(self).negate_left;

        let mut combined: Vec<i32> = Vec::new();
        combined.append(&mut self.carry);
        let mut k: usize = 0;
        while k < input.len()
            invariant
                k <= input@.len(),
                combined@ == old(self).carry_view() + input@.subrange(0, k as int),
            decreases input@.len() - k,
        {
            combined.push(input[k]);
            k = k + 1;
            proof {
                assert(old(self).carry_view() + input@.subrange(0, k as int)
                    =~= (old(self).carry_view() + input@.subrange(0, k - 1)).push(input@[k - 1]));
            }
        }
        proof {
            assert(input@.subrange(0, input@.len() as int) =~= input@);
            assert(combined@ == whole);
        }

        let total: usize = combined.len();
        let n_chunks: usize = total / CHUNK_SIZE;
        proof {
            vstd::arithmetic::div_mod::lemma_fundamental_div_mod(total as int, CHUNK_SIZE as int);
        }

        let mut pairs: Vec<(i32, i32)> = Vec::new();
        let mut c: usize = 0;
        while c < n_chunks
            invariant
                c <= n_chunks,
                n_chunks == (combined@.len() as int) / (CHUNK_SIZE as int),
                combined@ == whole,
                total == combined@.len(),
                self.negate_left == neg,
                pairs@ =~= chunk_pairs(whole, neg).subrange(0, c as int),
            decreases n_chunks - c,
        {
            proof {
                vstd::arithmetic::div_mod::lemma_fundamental_div_mod(total as int, CHUNK_SIZE as int);
            }
            let start: usize = c * CHUNK_SIZE;
            let left = extract_channel(&combined, start, 0);
            let right = extract_channel(&combined, start, 1);
            let dl = channel_deviation(&left);
            let dr = channel_deviation(&right);
            let dl_out: i32 = if self.negate_left { saturating_neg(dl) } else { dl };
            pairs.push((dl_out, dr));
            c = c + 1;
            proof {
                assert(combined@.subrange(start as int, start + CHUNK_SIZE)
                    == whole.subrange((c - 1) * (CHUNK_SIZE as int), (c as int) * (CHUNK_SIZE as int)));
                assert(pairs@ =~= chunk_pairs(whole, neg).subrange(0, c as int));
            }
        }
        proof {
            assert(chunk_pairs(whole, neg).subrange(0, n_chunks as int) =~= chunk_pairs(whole, neg));
        }

        let rem_start: usize = n_chunks * CHUNK_SIZE;
        proof {
            vstd::arithmetic::div_mod::lemma_fundamental_div_mod(total as int, CHUNK_SIZE as int);
            vstd::arithmetic::div_mod::lemma_mod_bound(total as int, CHUNK_SIZE as int);
        }
        let mut new_carry: Vec<i32> = Vec::new();
        let mut i: usize = rem_start;
        while i < total
            invariant
                rem_start <= i <= total,
                total == combined@.len(),
                combined@ == whole,
                new_carry@ =~= whole.subrange(rem_start as int, i as int),
            decreases total - i,
        {
            new_carry.push(combined[i]);
            i = i + 1;
        }
        proof {
            vstd::arithmetic::div_mod::lemma_fundamental_div_mod(total as int, CHUNK_SIZE as int);
            assert(new_carry@ =~= leftover(whole));
        }
        self.carry = new_carry;
        pairs
    }
}

} // verus!
