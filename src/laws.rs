use vstd::prelude::*;

use crate::engine::Engine;

verus! {

/// Determinism of input: two engines in the same state that receive the
/// same input slices end in the same state.
pub proof fn lemma_push_deterministic<T>(a0: &Engine<T>, b0: &Engine<T>, a1: &Engine<T>, b1: &Engine<T>, input: Seq<Seq<T>>)
    requires
        a0.same_state(b0),
        a1.pushed_from(a0, input),
        b1.pushed_from(b0, input),
    ensures
        a1.same_state(b1),
{
}

/// Determinism of a sub-frame: two engines in the same state that are handed
/// the same synthesis windows end in the same state.
pub proof fn lemma_commit_deterministic<T>(a0: &Engine<T>, b0: &Engine<T>, a1: &Engine<T>, b1: &Engine<T>, windows: Seq<Seq<T>>)
    requires
        a0.same_state(b0),
        a1.committed_from(a0, windows),
        b1.committed_from(b0, windows),
    ensures
        a1.same_state(b1),
{
}

/// Determinism of output: draining the same channel by the same bound from
/// engines in the same state yields the same samples and the same state.
pub proof fn lemma_drain_deterministic<T>(
    a0: &Engine<T>,
    b0: &Engine<T>,
    a1: &Engine<T>,
    b1: &Engine<T>,
    c: int,
    max: nat,
    ta: Seq<T>,
    tb: Seq<T>,
)
    requires
        0 <= c < a0.channels(),
        a0.same_state(b0),
        a1.drained_from(a0, c, max, ta),
        b1.drained_from(b0, c, max, tb),
    ensures
        ta == tb,
        a1.same_state(b1),
{
    assert(a0.pending(c) == b0.pending(c));
    assert forall|k: int| 0 <= k < a1.channels() implies {
        &&& #[trigger] a1.pending(k) == b1.pending(k)
        &&& a1.finished(k) == b1.finished(k)
        &&& a1.overlap(k) == b1.overlap(k)
    } by {
        assert(a0.pending(k) == b0.pending(k));
    }
}

/// Channel independence under input: two channels that hold the same samples
/// and receive the same slice still hold the same samples.
pub proof fn lemma_push_keeps_channels_matching<T>(e0: &Engine<T>, e1: &Engine<T>, input: Seq<Seq<T>>, a: int, b: int)
    requires
        0 <= a < e0.channels(),
        0 <= b < e0.channels(),
        e0.channels_match(a, b),
        input[a] == input[b],
        e1.pushed_from(e0, input),
    ensures
        e1.channels_match(a, b),
{
}

/// Channel independence through a sub-frame: two channels that hold the same
/// samples give the same analysis frame and overlap window, and when handed
/// the same synthesis window they still hold the same samples afterwards.
pub proof fn lemma_commit_keeps_channels_matching<T>(e0: &Engine<T>, e1: &Engine<T>, windows: Seq<Seq<T>>, a: int, b: int)
    requires
        0 <= a < e0.channels(),
        0 <= b < e0.channels(),
        e0.channels_match(a, b),
        windows[a] == windows[b],
        e1.committed_from(e0, windows),
    ensures
        e0.pending(a).subrange(0, e0.frame_size() as int) == e0.pending(b).subrange(0, e0.frame_size() as int),
        e1.channels_match(a, b),
{
}

} // verus!
