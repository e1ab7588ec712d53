//! The low-pass filter stage: the per-layout recurrences, their exact
//! specifications, and the `LowPass` component that wraps a source.

use vstd::prelude::*;

use crate::sample::dt_of_rate;
use crate::sample::dt_of_rate_bits;
use crate::sample::lp_step;
use crate::sample::lp_step_bits;
use crate::sample::mono_coeff;
use crate::sample::mono_coeff_bits;
use crate::sample::recip_two_pi;
use crate::sample::recip_two_pi_bits;
use crate::sample::stereo_coeff;
use crate::sample::stereo_coeff_bits;
use crate::stream::AudioFormat;
use crate::stream::AudioSource;
use crate::stream::StreamState;
use crate::stream::valid_count;

verus! {

/// The outputs of the single-channel recurrence with coefficient `a` over
/// the inputs `x`, where the output at each position steps from the previous
/// output, and the first output steps from `seed`:
/// `y[0] = seed + a * (x[0] - seed)`, `y[i] = y[i-1] + a * (x[i] - y[i-1])`.
pub open spec fn mono_outputs(x: Seq<u32>, seed: u32, a: u32) -> Seq<u32>
    decreases x.len(),
{
    if x.len() == 0 {
        Seq::empty()
    } else {
        let rest = mono_outputs(x.drop_last(), seed, a);
        let prev = if x.len() == 1 {
            seed
        } else {
            rest.last()
        };
        rest.push(lp_step(a, prev, x.last()))
    }
}

/// The outputs of the two-channel interleaved recurrence with coefficient
/// `a` over the inputs `x`, where the output at each position steps from the
/// output two positions earlier, and the first two outputs step from
/// `seed_l` and `seed_r`.
pub open spec fn stereo_outputs(x: Seq<u32>, seed_l: u32, seed_r: u32, a: u32) -> Seq<u32>
    decreases x.len(),
{
    if x.len() == 0 {
        Seq::empty()
    } else {
        let rest = stereo_outputs(x.drop_last(), seed_l, seed_r, a);
        let prev = if x.len() == 1 {
            seed_l
        } else if x.len() == 2 {
            seed_r
        } else {
            rest[x.len() - 3]
        };
        rest.push(lp_step(a, prev, x.last()))
    }
}

pub proof fn lemma_mono_outputs_len(x: Seq<u32>, seed: u32, a: u32)
    ensures
        mono_outputs(x, seed, a).len() == x.len(),
    decreases x.len(),
{
    if x.len() > 0 {
        lemma_mono_outputs_len(x.drop_last(), seed, a);
    }
}

pub proof fn lemma_stereo_outputs_len(x: Seq<u32>, seed_l: u32, seed_r: u32, a: u32)
    ensures
        stereo_outputs(x, seed_l, seed_r, a).len() == x.len(),
    decreases x.len(),
{
    if x.len() > 0 {
        lemma_stereo_outputs_len(x.drop_last(), seed_l, seed_r, a);
    }
}

/// Each single-channel output steps from its predecessor (or from the seed).
pub proof fn lemma_mono_outputs_index(x: Seq<u32>, seed: u32, a: u32, i: int)
    requires
        0 <= i < x.len(),
    ensures
        mono_outputs(x, seed, a)[i] == lp_step(
            a,
            if i == 0 {
                seed
            } else {
                mono_outputs(x, seed, a)[i - 1]
            },
            x[i],
        ),
    decreases x.len(),
{
    lemma_mono_outputs_len(x, seed, a);
    lemma_mono_outputs_len(x.drop_last(), seed, a);
    if i == x.len() - 1 {
        if x.len() > 1 {
            lemma_mono_outputs_index(x.drop_last(), seed, a, i - 1);
        }
    } else {
        lemma_mono_outputs_index(x.drop_last(), seed, a, i);
    }
}

/// Each two-channel output steps from the output two positions earlier (or
/// from the seed of its channel), so each channel only ever references its
/// own history.
pub proof fn lemma_stereo_outputs_index(x: Seq<u32>, seed_l: u32, seed_r: u32, a: u32, i: int)
    requires
        0 <= i < x.len(),
    ensures
        stereo_outputs(x, seed_l, seed_r, a)[i] == lp_step(
            a,
            if i == 0 {
                seed_l
            } else if i == 1 {
                seed_r
            } else {
                stereo_outputs(x, seed_l, seed_r, a)[i - 2]
            },
            x[i],
        ),
    decreases x.len(),
{
    lemma_stereo_outputs_len(x, seed_l, seed_r, a);
    lemma_stereo_outputs_len(x.drop_last(), seed_l, seed_r, a);
    if i < x.len() - 1 {
        lemma_stereo_outputs_index(x.drop_last(), seed_l, seed_r, a, i);
    }
}

/// Apply the single-channel recurrence in place to `samples[0..n]`. The seed
/// is taken from `scratch[n-1]` before anything is written; the outputs are
/// left in both `samples[0..n]` and `scratch[0..n]`, and every entry past
/// `n` keeps its value.
pub fn filter_mono(samples: &mut Vec<u32>, scratch: &mut Vec<u32>, n: usize, dt: u32, rc: u32)
    requires
        1 <= n <= old(samples).len(),
        n <= old(scratch).len(),
    ensures
        ({
            let ys = mono_outputs(
                old(samples)@.take(n as int),
                old(scratch)@[n - 1],
                mono_coeff(rc, dt),
            );
            &&& final(samples)@ == ys + old(samples)@.skip(n as int)
            &&& final(scratch)@ == ys + old(scratch)@.skip(n as int)
        }),
{
    let ghost x = old(samples)@.take(n as int);
    let ghost a_spec = mono_coeff(rc, dt);
    let ghost ys = mono_outputs(x, old(scratch)@[n - 1], a_spec);
    proof {
        lemma_mono_outputs_len(x, old(scratch)@[n - 1], a_spec);
    }
    let a = mono_coeff_bits(rc, dt);
    let seed = scratch[n - 1];
    let mut prev: u32 = seed;
    let mut i: usize = 0;
    while i < n
        invariant
            1 <= n <= samples.len(),
            n <= scratch.len(),
            samples@.len() == old(samples)@.len(),
            scratch@.len() == old(scratch)@.len(),
            0 <= i <= n,
            a == a_spec,
            x == old(samples)@.take(n as int),
            ys == mono_outputs(x, old(scratch)@[n - 1], a_spec),
            ys.len() == n,
            prev == (if i == 0 {
                old(scratch)@[n - 1]
            } else {
                ys[i - 1]
            }),
            forall|j: int| 0 <= j < i ==> samples@[j] == ys[j] && scratch@[j] == ys[j],
            forall|j: int| i <= j < samples@.len() ==> samples@[j] == old(samples)@[j],
            forall|j: int| i <= j < scratch@.len() ==> scratch@[j] == old(scratch)@[j],
        decreases n - i,
    {
        proof {
            lemma_mono_outputs_index(x, old(scratch)@[n - 1], a_spec, i as int);
        }
        let xi = samples[i];
        let y = lp_step_bits(a, prev, xi);
        samples.set(i, y);
        scratch.set(i, y);
        prev = y;
        i = i + 1;
    }
    proof {
        assert(final(samples)@ =~= ys + old(samples)@.skip(n as int));
        assert(final(scratch)@ =~= ys + old(scratch)@.skip(n as int));
    }
}

/// Apply the two-channel interleaved recurrence in place to `samples[0..n]`.
/// The per-channel seeds are taken from `scratch[n-2]` and `scratch[n-1]`
/// before anything is written; the outputs are left in both `samples[0..n]`
/// and `scratch[0..n]`, and every entry past `n` keeps its value.
pub fn filter_stereo(samples: &mut Vec<u32>, scratch: &mut Vec<u32>, n: usize, dt: u32, rc: u32)
    requires
        2 <= n <= old(samples).len(),
        n <= old(scratch).len(),
        n % 2 == 0,
    ensures
        ({
            let ys = stereo_outputs(
                old(samples)@.take(n as int),
                old(scratch)@[n - 2],
                old(scratch)@[n - 1],
                stereo_coeff(rc, dt),
            );
            &&& final(samples)@ == ys + old(samples)@.skip(n as int)
            &&& final(scratch)@ == ys + old(scratch)@.skip(n as int)
        }),
{
    let ghost x = old(samples)@.take(n as int);
    let ghost a_spec = stereo_coeff(rc, dt);
    let ghost ys = stereo_outputs(x, old(scratch)@[n - 2], old(scratch)@[n - 1], a_spec);
    proof {
        lemma_stereo_outputs_len(x, old(scratch)@[n - 2], old(scratch)@[n - 1], a_spec);
    }
    let a = stereo_coeff_bits(rc, dt);
    let seed_l = scratch[n - 2];
    let seed_r = scratch[n - 1];
    let mut i: usize = 0;
    while i < n
        invariant
            2 <= n <= samples.len(),
            n <= scratch.len(),
            samples@.len() == old(samples)@.len(),
            scratch@.len() == old(scratch)@.len(),
            0 <= i <= n,
            a == a_spec,
            x == old(samples)@.take(n as int),
            ys == stereo_outputs(x, old(scratch)@[n - 2], old(scratch)@[n - 1], a_spec),
            ys.len() == n,
            seed_l == old(scratch)@[n - 2],
            seed_r == old(scratch)@[n - 1],
            forall|j: int| 0 <= j < i ==> samples@[j] == ys[j] && scratch@[j] == ys[j],
            forall|j: int| i <= j < samples@.len() ==> samples@[j] == old(samples)@[j],
            forall|j: int| i <= j < scratch@.len() ==> scratch@[j] == old(scratch)@[j],
        decreases n - i,
    {
        proof {
            lemma_stereo_outputs_index(x, old(scratch)@[n - 2], old(scratch)@[n - 1], a_spec, i as int);
        }
        let prev = if i == 0 {
            seed_l
        } else if i == 1 {
            seed_r
        } else {
            scratch[i - 2]
        };
        let xi = samples[i];
        let y = lp_step_bits(a, prev, xi);
        samples.set(i, y);
        scratch.set(i, y);
        i = i + 1;
    }
    proof {
        assert(final(samples)@ =~= ys + old(samples)@.skip(n as int));
        assert(final(scratch)@ =~= ys + old(scratch)@.skip(n as int));
    }
}

/// `s` extended with zero entries (the bit pattern of `0.0`) to at least
/// `len` entries; an already long enough `s` is kept as it is. This is the
/// scratch buffer's growth policy: grown to the current need, never shrunk,
/// so the tail state of longer earlier reads survives shorter ones.
pub open spec fn grown(s: Seq<u32>, len: int) -> Seq<u32> {
    if s.len() >= len {
        s
    } else {
        s + Seq::new((len - s.len()) as nat, |i: int| 0u32)
    }
}

/// Whether a count of `w` valid samples lines up with whole frames of the
/// format: any count for a single channel, an even count for interleaved
/// two-channel data.
pub open spec fn frame_aligned(format: AudioFormat, w: int) -> bool {
    match format {
        AudioFormat::Mono(_) => true,
        AudioFormat::Stereo(_) => w % 2 == 0,
    }
}

/// A one-pole (RC) low-pass filter stage. It wraps an upstream source, pulls
/// samples into the caller's buffer, rewrites the valid prefix in place with
/// the per-layout recurrence, and passes the upstream's stream state through
/// unchanged. The scratch buffer carries the recurrence state from one read
/// to the next.
pub struct LowPass<S: AudioSource> {
    buffer: Vec<u32>,
    format: AudioFormat,
    rc: u32,
    source: S,
}

impl<S: AudioSource> LowPass<S> {
    /// The time constant `rc`, as the bit pattern of a single-precision
    /// value.
    pub closed spec fn spec_rc(self) -> u32 {
        self.rc
    }

    /// The stream format cached at construction.
    pub closed spec fn spec_format(self) -> AudioFormat {
        self.format
    }

    /// The contents of the scratch buffer: the filter's memory between
    /// reads.
    pub closed spec fn state(self) -> Seq<u32> {
        self.buffer@
    }

    /// The wrapped source.
    pub closed spec fn spec_source(self) -> S {
        self.source
    }

    /// Wrap `source`, caching its format once and deriving the time constant
    /// `rc = 1 / (2 * pi * cutoff)` from the cutoff frequency (given as the
    /// bit pattern of a single-precision value). The scratch buffer starts
    /// empty.
    pub fn new(source: S, cutoff: u32) -> (r: Self)
        ensures
            r.spec_rc() == recip_two_pi(cutoff),
            r.state() == Seq::<u32>::empty(),
    {
        let mut source = source;
        let format = source.format();
        let buffer = Vec::new();
        let rc = recip_two_pi_bits(cutoff);
        LowPass { buffer, format, rc, source }
    }

    /// Recompute the time constant from `cutoff`; it takes effect with the
    /// next read, the recurrence simply continuing with the new coefficient.
    pub fn set_cutoff(&mut self, cutoff: u32)
        ensures
            final(self).spec_rc() == recip_two_pi(cutoff),
            final(self).spec_format() == old(self).spec_format(),
            final(self).state() == old(self).state(),
            final(self).spec_source() == old(self).spec_source(),
    {
        self.rc = recip_two_pi_bits(cutoff);
    }

    /// The cutoff frequency implied by the stored time constant: the inverse
    /// of the constructing formula, derived rather than stored.
    pub fn cutoff(&self) -> (r: u32)
        ensures
            r == recip_two_pi(self.spec_rc()),
    {
        recip_two_pi_bits(self.rc)
    }
}

impl<S: AudioSource> AudioSource for LowPass<S> {
    /// The format cached at construction; the source is not queried again.
    fn format(&mut self) -> (r: AudioFormat)
        ensures
            r == old(self).spec_format(),
            *final(self) == *old(self),
    {
        self.format
    }

    /// Pull samples from the wrapped source, then rewrite the valid prefix
    /// in place with the recurrence of the cached layout, seeded from the
    /// scratch buffer grown to the buffer's length. The upstream's state is
    /// returned unchanged. A read with no valid samples leaves the buffer
    /// and the filter state untouched; one whose count does not line up with
    /// whole frames hands the samples through as the source wrote them,
    /// again without touching the filter state.
    fn read(&mut self, samples: &mut Vec<u32>) -> (r: StreamState)
        ensures
            final(self).spec_rc() == old(self).spec_rc(),
            final(self).spec_format() == old(self).spec_format(),
            ({
                let len = old(samples)@.len() as int;
                let w = valid_count(r, len);
                let g = grown(old(self).state(), len);
                let rc = old(self).spec_rc();
                let rate = old(self).spec_format().spec_rate();
                &&& (w == 0 ==> final(samples)@ == old(samples)@ && final(self).state()
                    == old(self).state())
                &&& (w > 0 && frame_aligned(old(self).spec_format(), w) ==> {
                    &&& final(self).state() == final(samples)@.take(w) + g.skip(w)
                    &&& (match old(self).spec_format() {
                        AudioFormat::Mono(_) => exists|x: Seq<u32>|
                            #![auto]
                            x.len() == w && final(samples)@.take(w) == mono_outputs(
                                x,
                                g[w - 1],
                                mono_coeff(rc, dt_of_rate(rate)),
                            ),
                        AudioFormat::Stereo(_) => exists|x: Seq<u32>|
                            #![auto]
                            x.len() == w && final(samples)@.take(w) == stereo_outputs(
                                x,
                                g[w - 2],
                                g[w - 1],
                                stereo_coeff(rc, dt_of_rate(rate)),
                            ),
                    })
                })
                &&& (w > 0 && !frame_aligned(old(self).spec_format(), w) ==> final(self).state()
                    == old(self).state())
            }),
    {
        let result = self.source.read(samples);
        let ghost filled = samples@;
        let len = samples.len();
        let ghost w = valid_count(result, len as int);
        let ghost g = grown(old(self).state(), len as int);
        let written = match result {
            StreamState::Good => len,
            StreamState::Finished(n) => n,
            StreamState::Underrun(n) => n,
        };
        if written == 0 {
            proof {
                assert(samples@ =~= old(samples)@);
            }
            return result;
        }
        let aligned = match self.format {
            AudioFormat::Mono(_) => true,
            AudioFormat::Stereo(_) => written % 2 == 0,
        };
        if !aligned {
            return result;
        }
        proof {
            assert(self.buffer@ =~= g.take(self.buffer@.len() as int));
        }
        while self.buffer.len() < len
            invariant
                g == grown(old(self).state(), len as int),
                self.buffer@.len() >= old(self).state().len(),
                self.buffer@.len() <= g.len(),
                self.buffer@ == g.take(self.buffer@.len() as int),
                self.format == old(self).spec_format(),
                self.rc == old(self).spec_rc(),
            decreases len - self.buffer.len(),
        {
            proof {
                assert(g[self.buffer@.len() as int] == 0u32);
            }
            self.buffer.push(0u32);
            proof {
                assert(self.buffer@ =~= g.take(self.buffer@.len() as int));
            }
        }
        proof {
            assert(self.buffer@ =~= g);
        }
        match self.format {
            AudioFormat::Mono(rate) => {
                let dt = dt_of_rate_bits(rate);
                filter_mono(samples, &mut self.buffer, written, dt, self.rc);
                proof {
                    let rc = old(self).spec_rc();
                    let a = mono_coeff(rc, dt_of_rate(rate));
                    let x = filled.take(w);
                    lemma_mono_outputs_len(x, g[w - 1], a);
                    assert(samples@.take(w) =~= mono_outputs(x, g[w - 1], a));
                    assert(self.buffer@ =~= samples@.take(w) + g.skip(w));
                    assert forall|i: int| w <= i < len implies samples@[i] == old(samples)@[i] by {
                        assert(samples@[i] == filled[i - w + w]);
                    }
                }
            },
            AudioFormat::Stereo(rate) => {
                let dt = dt_of_rate_bits(rate);
                filter_stereo(samples, &mut self.buffer, written, dt, self.rc);
                proof {
                    let rc = old(self).spec_rc();
                    let a = stereo_coeff(rc, dt_of_rate(rate));
                    let x = filled.take(w);
                    lemma_stereo_outputs_len(x, g[w - 2], g[w - 1], a);
                    assert(samples@.take(w) =~= stereo_outputs(x, g[w - 2], g[w - 1], a));
                    assert(self.buffer@ =~= samples@.take(w) + g.skip(w));
                    assert forall|i: int| w <= i < len implies samples@[i] == old(samples)@[i] by {
                        assert(samples@[i] == filled[i - w + w]);
                    }
                }
            },
        }
        result
    }
}

} // verus!
