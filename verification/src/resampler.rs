//! Block assembly for the resampler: samples are accumulated per channel
//! until whole blocks of `block_frames` frames are complete; only whole
//! blocks are handed to the numeric kernel downstream, and leftovers persist
//! across calls. No partial block is ever flushed mid-track, so up to
//! `block_frames − 1` trailing frames per track are dropped — a known,
//! bounded truncation of tens of milliseconds.
//!
//! Samples travel as the bit patterns of 32-bit floats; the windowed
//! transform that consumes the blocks is floating-point work performed
//! downstream of this crate.
use vstd::prelude::*;

verus! {

use vstd::arithmetic::div_mod::lemma_fundamental_div_mod;

/// A stereo frame: one 32-bit sample per channel, as bit patterns.
pub type Frame = (u32, u32);

/// Accumulates per-channel samples and emits only whole blocks.
pub struct Resampler {
    /// Input sample rate, as the source decodes it.
    source_rate: u32,
    /// Output sample rate, as the transport consumes it.
    target_rate: u32,
    /// Frames per transform block; never zero.
    block_frames: usize,
    /// Leftover samples of the first channel, fewer than one block.
    acc0: Vec<u32>,
    /// Leftover samples of the second channel, fewer than one block.
    acc1: Vec<u32>,
}

impl Resampler {
    /// Both accumulators hold the same number of samples, fewer than one
    /// block.
    pub closed spec fn wf(&self) -> bool {
        &&& self.block_frames >= 1
        &&& self.acc0@.len() == self.acc1@.len()
        &&& self.acc0@.len() < self.block_frames
    }

    /// Frames per transform block.
    pub closed spec fn block(&self) -> nat {
        self.block_frames as nat
    }

    /// The samples of the first channel waiting for a complete block.
    pub closed spec fn buffered0(&self) -> Seq<u32> {
        self.acc0@
    }

    /// The samples of the second channel waiting for a complete block.
    pub closed spec fn buffered1(&self) -> Seq<u32> {
        self.acc1@
    }

    pub closed spec fn rates(&self) -> (u32, u32) {
        (self.source_rate, self.target_rate)
    }

    pub fn new(source_rate: u32, target_rate: u32, block_frames: usize) -> (r: Resampler)
        requires
            block_frames >= 1,
        ensures
            r.wf(),
            r.block() == block_frames,
            r.buffered0() == Seq::<u32>::empty(),
            r.buffered1() == Seq::<u32>::empty(),
            r.rates() == (source_rate, target_rate),
    {
        Resampler { source_rate, target_rate, block_frames, acc0: Vec::new(), acc1: Vec::new() }
    }

    /// Adds one packet of per-channel samples. When that completes one or
    /// more blocks, exactly those whole blocks come out, as interleaved
    /// frames in input order, and only the remainder stays buffered; short of
    /// a block, nothing comes out and everything stays. The output size is a
    /// whole multiple of the block size, fixed by the input sizes alone.
    pub fn push_and_maybe_flush(&mut self, channel0: Vec<u32>, channel1: Vec<u32>) -> (r: Option<
        Vec<Frame>,
    >)
        requires
            old(self).wf(),
            channel0@.len() == channel1@.len(),
            old(self).buffered0().len() + channel0@.len() <= usize::MAX,
        ensures
            final(self).wf(),
            final(self).block() == old(self).block(),
            final(self).rates() == old(self).rates(),
            ({
                let t0 = old(self).buffered0() + channel0@;
                let t1 = old(self).buffered1() + channel1@;
                let cut = ((t0.len() as int) / (old(self).block() as int)) * (
                old(self).block() as int);
                &&& final(self).buffered0() == t0.skip(cut)
                &&& final(self).buffered1() == t1.skip(cut)
                &&& (r is Some <==> t0.len() >= old(self).block())
                &&& (r matches Some(out) ==> out@ == Seq::new(
                    cut as nat,
                    |i: int| (t0[i], t1[i]),
                ))
            }),
    {
        let ghost t0 = self.acc0@ + channel0@;
        let ghost t1 = self.acc1@ + channel1@;
        let mut c0 = channel0;
        let mut c1 = channel1;
        self.acc0.append(&mut c0);
        self.acc1.append(&mut c1);
        let total: usize = self.acc0.len();
        let nblocks: usize = total / self.block_frames;
        proof {
            lemma_fundamental_div_mod(total as int, self.block_frames as int);
            vstd::arithmetic::div_mod::lemma_mod_division_less_than_divisor(
                total as int,
                self.block_frames as int,
            );
            assert(nblocks * self.block_frames <= total) by (nonlinear_arith)
                requires
                    total as int == (self.block_frames as int) * (nblocks as int) + (
                    total as int) % (self.block_frames as int),
                    (total as int) % (self.block_frames as int) >= 0,
            ;
        }
        let cut: usize = nblocks * self.block_frames;
        proof {
            assert(total == t0.len());
            assert(t1.len() == t0.len());
        }
        if nblocks == 0 {
            proof {
                assert(cut == 0) by (nonlinear_arith)
                    requires
                        nblocks == 0,
                        cut == nblocks * self.block_frames,
                ;
                assert(t0.skip(0) =~= t0);
                assert(t1.skip(0) =~= t1);
                assert(total as int == (total as int) % (self.block_frames as int));
                assert(t0.len() < self.block_frames);
            }
            return None;
        }
        proof {
            assert(t0.len() >= self.block_frames) by (nonlinear_arith)
                requires
                    nblocks >= 1,
                    self.block_frames >= 1,
                    t0.len() == nblocks * (self.block_frames as int) + (t0.len() as int) % (
                    self.block_frames as int),
                    (t0.len() as int) % (self.block_frames as int) >= 0,
            ;
        }
        let mut out: Vec<Frame> = Vec::new();
        let mut i: usize = 0;
        while i < cut
            invariant
                i <= cut <= total,
                total == self.acc0@.len(),
                self.acc0@.len() == self.acc1@.len(),
                self.acc0@ == t0,
                self.acc1@ == t1,
                out@ == Seq::new(i as nat, |j: int| (t0[j], t1[j])),
            decreases cut - i,
        {
            out.push((self.acc0[i], self.acc1[i]));
            proof {
                assert(out@ =~= Seq::new((i + 1) as nat, |j: int| (t0[j], t1[j])));
            }
            i += 1;
        }
        let rest0 = drain_tail(&self.acc0, cut);
        let rest1 = drain_tail(&self.acc1, cut);
        self.acc0 = rest0;
        self.acc1 = rest1;
        proof {
            assert(self.acc0@ =~= t0.skip(cut as int));
            assert(self.acc1@ =~= t1.skip(cut as int));
            assert(total - cut < self.block_frames) by (nonlinear_arith)
                requires
                    cut == nblocks * self.block_frames,
                    total as int == (self.block_frames as int) * (nblocks as int) + (
                    total as int) % (self.block_frames as int),
                    0 <= (total as int) % (self.block_frames as int) < self.block_frames,
            ;
        }
        Some(out)
    }
}

/// The samples from `from` to the end, in order.
fn drain_tail(v: &Vec<u32>, from: usize) -> (r: Vec<u32>)
    requires
        from <= v@.len(),
    ensures
        r@ == v@.subrange(from as int, v@.len() as int),
{
    let mut r: Vec<u32> = Vec::new();
    let mut i: usize = from;
    while i < v.len()
        invariant
            from <= i <= v@.len(),
            r@ == v@.subrange(from as int, i as int),
        decreases v@.len() - i,
    {
        r.push(v[i]);
        proof {
            assert(r@ =~= v@.subrange(from as int, i + 1));
        }
        i += 1;
    }
    r
}

} // verus!
