//! Laws of the filter, proved over the recurrence model that the filter's
//! contracts are stated in.

use vstd::prelude::*;

use crate::low_pass::grown;
use crate::low_pass::lemma_mono_outputs_index;
use crate::low_pass::lemma_mono_outputs_len;
use crate::low_pass::lemma_stereo_outputs_index;
use crate::low_pass::mono_outputs;
use crate::low_pass::stereo_outputs;
use crate::sample::lp_step;

verus! {

/// Continuity across consecutive runs: a further run seeded with the
/// previous run's last output starts by stepping from exactly that value,
/// `y = last + a * (x[0] - last)` — the recurrence carries on where it
/// stopped instead of starting afresh.
pub proof fn lemma_mono_continuity(x1: Seq<u32>, x2: Seq<u32>, seed: u32, a: u32)
    requires
        x1.len() >= 1,
        x2.len() >= 1,
    ensures
        mono_outputs(x2, mono_outputs(x1, seed, a).last(), a)[0] == lp_step(
            a,
            mono_outputs(x1, seed, a).last(),
            x2[0],
        ),
{
    lemma_mono_outputs_len(x1, seed, a);
    lemma_mono_outputs_index(x2, mono_outputs(x1, seed, a).last(), a, 0);
}

proof fn lemma_stereo_dup_at(x: Seq<u32>, xs: Seq<u32>, seed: u32, a: u32, i: int)
    requires
        x.len() == 2 * xs.len(),
        forall|i: int|
            #![auto]
            0 <= i < xs.len() ==> x[2 * i] == xs[i] && x[2 * i + 1] == xs[i],
        0 <= i < xs.len(),
    ensures
        stereo_outputs(x, seed, seed, a)[2 * i] == mono_outputs(xs, seed, a)[i],
        stereo_outputs(x, seed, seed, a)[2 * i + 1] == mono_outputs(xs, seed, a)[i],
    decreases i,
{
    lemma_stereo_outputs_index(x, seed, seed, a, 2 * i);
    lemma_stereo_outputs_index(x, seed, seed, a, 2 * i + 1);
    lemma_mono_outputs_index(xs, seed, a, i);
    if i > 0 {
        lemma_stereo_dup_at(x, xs, seed, a, i - 1);
    }
}

/// Channel independence: when the two interleaved channels carry the same
/// signal and both seeds agree, the two channels produce identical outputs,
/// and each equals the single-channel recurrence of that signal run with the
/// same coefficient.
pub proof fn lemma_stereo_channel_independence(x: Seq<u32>, xs: Seq<u32>, seed: u32, a: u32)
    requires
        x.len() == 2 * xs.len(),
        forall|i: int|
            #![auto]
            0 <= i < xs.len() ==> x[2 * i] == xs[i] && x[2 * i + 1] == xs[i],
    ensures
        forall|i: int|
            #![auto]
            0 <= i < xs.len() ==> stereo_outputs(x, seed, seed, a)[2 * i] == mono_outputs(
                xs,
                seed,
                a,
            )[i] && stereo_outputs(x, seed, seed, a)[2 * i + 1] == mono_outputs(xs, seed, a)[i],
{
    assert forall|i: int|
        #![auto]
        0 <= i < xs.len() implies stereo_outputs(x, seed, seed, a)[2 * i] == mono_outputs(
        xs,
        seed,
        a,
    )[i] && stereo_outputs(x, seed, seed, a)[2 * i + 1] == mono_outputs(xs, seed, a)[i] by {
        lemma_stereo_dup_at(x, xs, seed, a, i);
    }
}

/// After a read leaves `out` as its `n` outputs at the front of the scratch
/// buffer, a following read of the same length is seeded with `out`'s last
/// entry — the true last output of the previous read, as the seed of an
/// equal-length read is the grown scratch buffer's entry at `n - 1`.
pub proof fn lemma_next_read_seeded_with_last_output(out: Seq<u32>, rest: Seq<u32>, n: int)
    requires
        out.len() == n,
        n >= 1,
    ensures
        grown(out + rest, n)[n - 1] == out.last(),
{
}

/// The scratch buffer's growth policy keeps every prior entry and never
/// shrinks: the tail state a longer earlier read left behind survives later,
/// shorter reads, so a later long read is seeded from real filter state,
/// never from uninitialized storage.
pub proof fn lemma_grown_keeps_state(s: Seq<u32>, len: int)
    ensures
        grown(s, len).len() >= s.len(),
        grown(s, len).len() >= len,
        forall|i: int| 0 <= i < s.len() ==> grown(s, len)[i] == s[i],
{
}

} // verus!
