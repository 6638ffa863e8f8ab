use std::collections::VecDeque;
use vstd::prelude::*;

use crate::config::{effective_frame_size, hop_size, spec_effective_frame_size};

verus! {

/// Per-channel buffers and the batch schedule of a streaming phase vocoder.
///
/// All channels advance in lockstep: every channel holds the same number of
/// pending input samples, and every hop moves the same number of samples
/// from each channel's accumulator to its output queue.
pub struct Engine<T> {
    channels: usize,
    frame_size: usize,
    time_res: usize,
    samples_waiting: usize,
    subframe: usize,
    input: Vec<VecDeque<T>>,
    output: Vec<VecDeque<T>>,
    accum: Vec<VecDeque<T>>,
    supplied: Ghost<nat>,
    produced: Ghost<nat>,
}

impl<T> Engine<T> {
    pub closed spec fn channels(&self) -> nat {
        self.channels as nat
    }

    pub closed spec fn frame_size(&self) -> nat {
        self.frame_size as nat
    }

    pub closed spec fn time_res(&self) -> nat {
        self.time_res as nat
    }

    /// Samples the analysis window advances per sub-frame.
    pub open spec fn hop(&self) -> nat {
        self.frame_size() / self.time_res()
    }

    /// Running count of samples enqueued over all channels and not yet
    /// retired by a completed batch.
    pub closed spec fn waiting(&self) -> nat {
        self.samples_waiting as nat
    }

    /// Sub-frames already run in the batch under way (zero between batches).
    pub closed spec fn subframes_done(&self) -> nat {
        self.subframe as nat
    }

    /// Input samples of channel `c` not yet passed by the analysis window.
    pub closed spec fn pending(&self, c: int) -> Seq<T> {
        self.input@[c]@
    }

    /// Finished samples of channel `c` waiting to be drained.
    pub closed spec fn finished(&self, c: int) -> Seq<T> {
        self.output@[c]@
    }

    /// Partially summed overlap-add samples of channel `c`, aligned to the
    /// start of the current analysis window.
    pub closed spec fn overlap(&self, c: int) -> Seq<T> {
        self.accum@[c]@
    }

    /// Samples per channel ever handed to the engine.
    pub closed spec fn supplied(&self) -> nat {
        self.supplied@
    }

    /// Samples per channel ever moved into the output queue.
    pub closed spec fn produced(&self) -> nat {
        self.produced@
    }

    /// Whether another analysis sub-frame must run before output is drained.
    pub open spec fn due(&self) -> bool {
        self.subframes_done() > 0 || self.waiting() >= 2 * self.frame_size() * self.channels()
    }

    /// Channel count, frame size and overlap factor agree.
    pub open spec fn same_config(&self, o: &Self) -> bool {
        &&& self.channels() == o.channels()
        &&& self.frame_size() == o.frame_size()
        &&& self.time_res() == o.time_res()
    }

    /// `self` is `old` after appending `input[c]` to each channel's input.
    pub open spec fn pushed_from(&self, old: &Self, input: Seq<Seq<T>>) -> bool {
        &&& self.same_config(old)
        &&& self.subframes_done() == old.subframes_done()
        &&& self.waiting() == old.waiting() + old.channels() * input[0].len()
        &&& self.supplied() == old.supplied() + input[0].len()
        &&& self.produced() == old.produced()
        &&& forall|c: int|
            0 <= c < old.channels() ==> {
                &&& #[trigger] self.pending(c) == old.pending(c) + input[c]
                &&& self.finished(c) == old.finished(c)
                &&& self.overlap(c) == old.overlap(c)
            }
    }

    /// `self` is `old` after one sub-frame in which channel `c` handed back
    /// the summed window `windows[c]`.
    pub open spec fn committed_from(&self, old: &Self, windows: Seq<Seq<T>>) -> bool {
        let hop = old.hop() as int;
        &&& self.same_config(old)
        &&& self.supplied() == old.supplied()
        &&& self.produced() == old.produced() + old.hop()
        &&& if old.subframes_done() + 1 == old.time_res() {
            &&& self.subframes_done() == 0
            &&& self.waiting() == old.waiting() - old.frame_size() * old.channels()
        } else {
            &&& self.subframes_done() == old.subframes_done() + 1
            &&& self.waiting() == old.waiting()
        }
        &&& forall|c: int|
            0 <= c < old.channels() ==> {
                &&& #[trigger] self.pending(c) == old.pending(c).subrange(hop, old.pending(c).len() as int)
                &&& self.finished(c) == old.finished(c) + windows[c].subrange(0, hop)
                &&& self.overlap(c) == windows[c].subrange(hop, old.frame_size() as int)
            }
    }

    /// Channels `a` and `b` hold the same samples in every queue.
    pub open spec fn channels_match(&self, a: int, b: int) -> bool {
        &&& self.pending(a) == self.pending(b)
        &&& self.finished(a) == self.finished(b)
        &&& self.overlap(a) == self.overlap(b)
    }

    /// Everything observable of `self` and `o` agrees.
    pub open spec fn same_state(&self, o: &Self) -> bool {
        &&& self.same_config(o)
        &&& self.waiting() == o.waiting()
        &&& self.subframes_done() == o.subframes_done()
        &&& self.supplied() == o.supplied()
        &&& self.produced() == o.produced()
        &&& forall|c: int|
            0 <= c < self.channels() ==> {
                &&& #[trigger] self.pending(c) == o.pending(c)
                &&& self.finished(c) == o.finished(c)
                &&& self.overlap(c) == o.overlap(c)
            }
    }

    /// `self` is `old` after `taken`, at most `max` samples, left the front
    /// of channel `c`'s output; fewer only when the output ran out.
    pub open spec fn drained_from(&self, old: &Self, c: int, max: nat, taken: Seq<T>) -> bool {
        &&& taken.len() == if max < old.finished(c).len() {
            max
        } else {
            old.finished(c).len()
        }
        &&& self.same_config(old)
        &&& self.waiting() == old.waiting()
        &&& self.subframes_done() == old.subframes_done()
        &&& self.supplied() == old.supplied()
        &&& self.produced() == old.produced()
        &&& taken == old.finished(c).subrange(0, taken.len() as int)
        &&& self.finished(c) == old.finished(c).subrange(taken.len() as int, old.finished(c).len() as int)
        &&& forall|k: int|
            0 <= k < old.channels() ==> {
                &&& #[trigger] self.pending(k) == old.pending(k)
                &&& self.overlap(k) == old.overlap(k)
                &&& k != c ==> self.finished(k) == old.finished(k)
            }
    }

    /// The engine's invariant: a sane configuration, one queue of each kind
    /// per channel, equal pending lengths, and a waiting count that matches
    /// the pending input plus the hops already taken in the batch under way.
    pub closed spec fn wf(&self) -> bool {
        &&& self.channels >= 1
        &&& self.time_res >= 1
        &&& self.frame_size >= self.time_res
        &&& self.frame_size % self.time_res == 0
        &&& self.input@.len() == self.channels
        &&& self.output@.len() == self.channels
        &&& self.accum@.len() == self.channels
        &&& forall|c: int| 0 <= c < self.channels ==> #[trigger] self.input@[c]@.len() == self.input@[0]@.len()
        &&& forall|c: int| 0 <= c < self.channels ==> #[trigger] self.accum@[c]@.len() <= self.frame_size
        &&& self.subframe < self.time_res
        &&& self.samples_waiting == self.channels * (self.input@[0]@.len() + self.subframe * self.hop())
        &&& self.subframe > 0 ==> self.input@[0]@.len() + self.subframe * self.hop() >= 2 * self.frame_size
        &&& self.supplied@ == self.produced@ + self.input@[0]@.len()
    }
}

impl<T> Engine<T> {
    /// A due sub-frame always finds a full frame plus one hop of pending input.
    proof fn lemma_due_has_frame(&self)
        requires
            self.wf(),
            self.due(),
        ensures
            self.input@[0]@.len() >= self.frame_size + self.hop(),
    {
        let f = self.frame_size as int;
        let r = self.time_res as int;
        let s = self.hop() as int;
        let l = self.input@[0]@.len() as int;
        let k = self.subframe as int;
        let c = self.channels as int;
        assert(s * r == f && s >= 1) by (nonlinear_arith)
            requires
                s == f / r,
                f % r == 0,
                f >= r,
                r >= 1,
        ;
        if k > 0 {
            assert(k * s <= f - s) by (nonlinear_arith)
                requires
                    k <= r - 1,
                    s * r == f,
                    s >= 1,
            ;
        } else {
            assert(l >= 2 * f) by (nonlinear_arith)
                requires
                    c * (l + k * s) >= 2 * f * c,
                    k == 0,
                    c >= 1,
            ;
        }
    }

    /// Sample conservation: in every channel, each sample handed to the
    /// engine has either been moved to the output queue or is still pending,
    /// all channels hold the same number pending, and once no sub-frame is
    /// due fewer than two frames' worth stay pending.
    pub proof fn lemma_sample_conservation(&self)
        requires
            self.wf(),
        ensures
            forall|c: int|
                0 <= c < self.channels() ==> {
                    &&& self.produced() + (#[trigger] self.pending(c)).len() == self.supplied()
                    &&& self.pending(c).len() == self.pending(0).len()
                },
            !self.due() ==> forall|c: int|
                0 <= c < self.channels() ==> (#[trigger] self.pending(c)).len() < 2 * self.frame_size(),
    {
        if !self.due() {
            self.lemma_idle_has_less_than_two_frames();
        }
        assert forall|c: int| 0 <= c < self.channels() implies (#[trigger] self.pending(c)).len() == self.pending(0).len() by {
            assert(self.input@[c]@.len() == self.input@[0]@.len());
        }
    }

    /// Between batches, less than two frames of input stay pending.
    proof fn lemma_idle_has_less_than_two_frames(&self)
        requires
            self.wf(),
            !self.due(),
        ensures
            self.input@[0]@.len() < 2 * self.frame_size,
    {
        let f = self.frame_size as int;
        let l = self.input@[0]@.len() as int;
        let c = self.channels as int;
        assert(l < 2 * f) by (nonlinear_arith)
            requires
                c * (l + 0 * self.hop()) < 2 * f * c,
                c >= 1,
        ;
    }
}

impl<T: Copy> Engine<T> {
    /// Creates an engine with empty queues for `channels` channels, a frame
    /// of `frame_size` rounded to a multiple of `time_res`, and `time_res`
    /// overlapping sub-frames per frame.
    pub fn new(channels: usize, frame_size: usize, time_res: usize) -> (r: Self)
        requires
            channels >= 1,
            time_res >= 1,
        ensures
            r.wf(),
            r.channels() == channels,
            r.frame_size() == spec_effective_frame_size(frame_size as nat, time_res as nat),
            r.time_res() == time_res,
            r.waiting() == 0,
            r.subframes_done() == 0,
            r.supplied() == 0,
            r.produced() == 0,
            forall|c: int|
                0 <= c < channels ==> {
                    &&& (#[trigger] r.pending(c)).len() == 0
                    &&& r.finished(c).len() == 0
                    &&& r.overlap(c).len() == 0
                },
    {
        let frame_size = effective_frame_size(frame_size, time_res);
        let mut input: Vec<VecDeque<T>> = Vec::new();
        let mut output: Vec<VecDeque<T>> = Vec::new();
        let mut accum: Vec<VecDeque<T>> = Vec::new();
        let mut c: usize = 0;
        while c < channels
            invariant
                c <= channels,
                input@.len() == c,
                output@.len() == c,
                accum@.len() == c,
                forall|j: int| 0 <= j < c ==> (#[trigger] input@[j])@.len() == 0,
                forall|j: int| 0 <= j < c ==> (#[trigger] output@[j])@.len() == 0,
                forall|j: int| 0 <= j < c ==> (#[trigger] accum@[j])@.len() == 0,
            decreases channels - c,
        {
            input.push(VecDeque::new());
            output.push(VecDeque::new());
            accum.push(VecDeque::new());
            c = c + 1;
        }
        proof {
            assert(frame_size / time_res * time_res == frame_size) by (nonlinear_arith)
                requires
                    frame_size % time_res == 0,
                    time_res >= 1,
            ;
        }
        let r = Engine {
            channels,
            frame_size,
            time_res,
            samples_waiting: 0,
            subframe: 0,
            input,
            output,
            accum,
            supplied: Ghost(0),
            produced: Ghost(0),
        };
        assert(r.input@[0]@.len() == 0);
        assert(channels * (0 + 0 * r.hop()) == 0) by (nonlinear_arith);
        r
    }

    /// Whether an analysis sub-frame must run now: a batch is under way, or
    /// at least two frames' worth of samples wait over all channels.
    pub fn subframe_due(&self) -> (r: bool)
        requires
            self.wf(),
        ensures
            r == self.due(),
    {
        if self.subframe > 0 {
            return true;
        }
        let w = self.samples_waiting;
        let c = self.channels;
        let f = self.frame_size;
        let q: usize = w / c;
        proof {
            vstd::arithmetic::div_mod::lemma_fundamental_div_mod(w as int, c as int);
            assert((q >= 2 * f) == (w >= 2 * f * c)) by (nonlinear_arith)
                requires
                    w == c * q + w % c,
                    0 <= w % c < c,
                    c >= 1,
            ;
        }
        q >= f && q - f >= f
    }

    /// The analysis window of channel `c`: the first frame of its pending
    /// input, left in place.
    pub fn analysis_frame(&self, c: usize) -> (r: Vec<T>)
        requires
            self.wf(),
            self.due(),
            c < self.channels(),
        ensures
            r@ == self.pending(c as int).subrange(0, self.frame_size() as int),
    {
        proof {
            self.lemma_due_has_frame();
            assert(self.input@[c as int]@.len() == self.input@[0]@.len());
        }
        let mut r: Vec<T> = Vec::new();
        let mut i: usize = 0;
        while i < self.frame_size
            invariant
                i <= self.frame_size,
                c < self.input@.len(),
                self.frame_size <= self.input@[c as int]@.len(),
                r@ == self.input@[c as int]@.subrange(0, i as int),
            decreases self.frame_size - i,
        {
            r.push(self.input[c][i]);
            i = i + 1;
        }
        r
    }

    /// Appends one equal-length slice of new samples to each channel's input
    /// queue and counts them as waiting.
    pub fn push_input(&mut self, input: &Vec<Vec<T>>)
        requires
            old(self).wf(),
            input@.len() == old(self).channels(),
            forall|c: int| 0 <= c < input@.len() ==> (#[trigger] input@[c])@.len() == input@[0]@.len(),
            old(self).waiting() + old(self).channels() * input@[0]@.len() <= usize::MAX,
        ensures
            final(self).wf(),
            final(self).pushed_from(old(self), input@.map_values(|v: Vec<T>| v@)),
    {
        let n: usize = input[0].len();
        let ghost n0 = self.input@[0]@.len();
        let mut c: usize = 0;
        while c < self.channels
            invariant
                c <= self.channels,
                self.channels == old(self).channels,
                self.frame_size == old(self).frame_size,
                self.time_res == old(self).time_res,
                self.subframe == old(self).subframe,
                self.output == old(self).output,
                self.accum == old(self).accum,
                self.supplied == old(self).supplied,
                self.produced == old(self).produced,
                self.input@.len() == self.channels,
                input@.len() == self.channels,
                n == input@[0]@.len(),
                forall|j: int| 0 <= j < input@.len() ==> (#[trigger] input@[j])@.len() == n,
                forall|j: int| 0 <= j < c ==> (#[trigger] self.input@[j])@ == old(self).input@[j]@ + input@[j]@,
                forall|j: int| c <= j < self.channels ==> (#[trigger] self.input@[j]) == old(self).input@[j],
                self.samples_waiting == old(self).samples_waiting + c * n,
                old(self).samples_waiting + self.channels * n <= usize::MAX,
            decreases self.channels - c,
        {
            let mut i: usize = 0;
            while i < n
                invariant
                    i <= n,
                    c < self.channels,
                    self.channels == old(self).channels,
                    self.frame_size == old(self).frame_size,
                    self.time_res == old(self).time_res,
                    self.subframe == old(self).subframe,
                    self.output == old(self).output,
                    self.accum == old(self).accum,
                    self.supplied == old(self).supplied,
                    self.produced == old(self).produced,
                    self.samples_waiting == old(self).samples_waiting + c * n,
                    old(self).samples_waiting + self.channels * n <= usize::MAX,
                    self.input@.len() == self.channels,
                    input@.len() == self.channels,
                    n == input@[c as int]@.len(),
                    forall|j: int| 0 <= j < c ==> (#[trigger] self.input@[j])@ == old(self).input@[j]@ + input@[j]@,
                    forall|j: int| c < j < self.channels ==> (#[trigger] self.input@[j]) == old(self).input@[j],
                    self.input@[c as int]@ == old(self).input@[c as int]@ + input@[c as int]@.subrange(0, i as int),
                decreases n - i,
            {
                self.input[c].push_back(input[c][i]);
                i = i + 1;
                assert(input@[c as int]@.subrange(0, i as int) == input@[c as int]@.subrange(0, i - 1).push(input@[c as int]@[i - 1]));
            }
            assert(input@[c as int]@.subrange(0, n as int) == input@[c as int]@);
            proof {
                assert((c + 1) * n == c * n + n && c * n + n <= self.channels * n) by (nonlinear_arith)
                    requires
                        c < self.channels,
                ;
            }
            self.samples_waiting = self.samples_waiting + n;
            c = c + 1;
        }
        proof {
            self.supplied = Ghost((self.supplied@ + n) as nat);
            let m = old(self).input@[0]@.len();
            let k = self.subframe * self.hop();
            assert(self.input@[0]@.len() == m + n);
            assert(self.channels * (m + k) + self.channels * n == self.channels * (m + n + k)) by (nonlinear_arith);
            assert forall|j: int| 0 <= j < self.channels implies #[trigger] self.input@[j]@.len() == self.input@[0]@.len() by {
                assert(old(self).input@[j]@.len() == old(self).input@[0]@.len());
            }
        }
    }

    /// The overlap-add accumulator of channel `c` stretched to a full frame,
    /// with `zero` in the positions no earlier frame has reached.
    pub fn overlap_window(&self, c: usize, zero: T) -> (r: Vec<T>)
        requires
            self.wf(),
            c < self.channels(),
        ensures
            r@.len() == self.frame_size(),
            forall|i: int| 0 <= i < self.overlap(c as int).len() ==> #[trigger] r@[i] == self.overlap(c as int)[i],
            forall|i: int| self.overlap(c as int).len() <= i < self.frame_size() ==> #[trigger] r@[i] == zero,
    {
        let len = self.accum[c].len();
        proof {
            assert(self.accum@[c as int]@.len() <= self.frame_size);
        }
        let mut r: Vec<T> = Vec::new();
        let mut i: usize = 0;
        while i < self.frame_size
            invariant
                i <= self.frame_size,
                c < self.accum@.len(),
                len == self.accum@[c as int]@.len(),
                len <= self.frame_size,
                r@.len() == i,
                forall|j: int| 0 <= j < i && j < len ==> #[trigger] r@[j] == self.accum@[c as int]@[j],
                forall|j: int| len <= j < i ==> #[trigger] r@[j] == zero,
            decreases self.frame_size - i,
        {
            if i < len {
                r.push(self.accum[c][i]);
            } else {
                r.push(zero);
            }
            i = i + 1;
        }
        r
    }

    /// Completes one sub-frame for every channel.  `windows[c]` is the
    /// accumulator of channel `c` with the new synthesis frame added: its
    /// first hop is final and moves to the output queue, the rest becomes
    /// the new accumulator, and the analysis window advances by one hop.
    /// After the last sub-frame of a batch, one frame per channel is retired
    /// from the waiting count.
    pub fn commit_subframe(&mut self, windows: &Vec<Vec<T>>)
        requires
            old(self).wf(),
            old(self).due(),
            windows@.len() == old(self).channels(),
            forall|c: int| 0 <= c < windows@.len() ==> (#[trigger] windows@[c])@.len() == old(self).frame_size(),
        ensures
            final(self).wf(),
            final(self).committed_from(old(self), windows@.map_values(|v: Vec<T>| v@)),
    {
        proof {
            self.lemma_due_has_frame();
        }
        let frame = self.frame_size;
        let step: usize = hop_size(self.frame_size, self.time_res);
        let ghost lead = self.input@[0]@.len();
        proof {
            assert forall|j: int| 0 <= j < self.channels implies (#[trigger] old(self).input@[j])@.len() == lead by {
                assert(self.input@[j]@.len() == self.input@[0]@.len());
            }
            assert(step <= frame) by (nonlinear_arith)
                requires
                    step == frame / self.time_res,
                    self.time_res >= 1,
            ;
        }
        let mut c: usize = 0;
        while c < self.channels
            invariant
                c <= self.channels,
                self.channels == old(self).channels,
                self.frame_size == old(self).frame_size,
                self.time_res == old(self).time_res,
                self.subframe == old(self).subframe,
                self.samples_waiting == old(self).samples_waiting,
                self.supplied == old(self).supplied,
                self.produced == old(self).produced,
                frame == self.frame_size,
                step == old(self).hop(),
                step <= frame,
                lead == old(self).input@[0]@.len(),
                lead >= frame + step,
                self.input@.len() == self.channels,
                self.output@.len() == self.channels,
                self.accum@.len() == self.channels,
                windows@.len() == self.channels,
                forall|j: int| 0 <= j < self.channels ==> (#[trigger] windows@[j])@.len() == frame,
                forall|j: int| 0 <= j < self.channels ==> (#[trigger] old(self).input@[j])@.len() == lead,
                forall|j: int| 0 <= j < c ==> (#[trigger] self.input@[j])@ == old(self).input@[j]@.subrange(step as int, lead as int),
                forall|j: int| 0 <= j < c ==> (#[trigger] self.output@[j])@ == old(self).output@[j]@ + windows@[j]@.subrange(0, step as int),
                forall|j: int| 0 <= j < c ==> (#[trigger] self.accum@[j])@ == windows@[j]@.subrange(step as int, frame as int),
                forall|j: int| c <= j < self.channels ==> #[trigger] self.input@[j] == old(self).input@[j],
                forall|j: int| c <= j < self.channels ==> #[trigger] self.output@[j] == old(self).output@[j],
                forall|j: int| c <= j < self.channels ==> #[trigger] self.accum@[j] == old(self).accum@[j],
            decreases self.channels - c,
        {
            let mut acc: VecDeque<T> = VecDeque::new();
            let mut i: usize = step;
            while i < frame
                invariant
                    step <= i <= frame,
                    c < windows@.len(),
                    windows@[c as int]@.len() == frame,
                    acc@ == windows@[c as int]@.subrange(step as int, i as int),
                decreases frame - i,
            {
                acc.push_back(windows[c][i]);
                i = i + 1;
            }
            self.accum[c] = acc;
            assert(windows@[c as int]@.subrange(0, 0) =~= Seq::<T>::empty());
            assert(old(self).output@[c as int]@ + Seq::<T>::empty() =~= old(self).output@[c as int]@);
            assert(old(self).input@[c as int]@.subrange(0, lead as int) =~= old(self).input@[c as int]@);
            let mut j: usize = 0;
            while j < step
                invariant
                    j <= step,
                    c < self.channels,
                    self.channels == old(self).channels,
                    self.frame_size == old(self).frame_size,
                    self.time_res == old(self).time_res,
                    self.subframe == old(self).subframe,
                    self.samples_waiting == old(self).samples_waiting,
                    self.supplied == old(self).supplied,
                    self.produced == old(self).produced,
                    frame == self.frame_size,
                    step == old(self).hop(),
                    step <= frame,
                    lead == old(self).input@[0]@.len(),
                    lead >= frame + step,
                    self.input@.len() == self.channels,
                    self.output@.len() == self.channels,
                    self.accum@.len() == self.channels,
                    windows@.len() == self.channels,
                    forall|k: int| 0 <= k < self.channels ==> (#[trigger] windows@[k])@.len() == frame,
                    forall|k: int| 0 <= k < self.channels ==> (#[trigger] old(self).input@[k])@.len() == lead,
                    forall|k: int| 0 <= k < c ==> (#[trigger] self.input@[k])@ == old(self).input@[k]@.subrange(step as int, lead as int),
                    forall|k: int| 0 <= k < c ==> (#[trigger] self.output@[k])@ == old(self).output@[k]@ + windows@[k]@.subrange(0, step as int),
                    forall|k: int| 0 <= k < c ==> (#[trigger] self.accum@[k])@ == windows@[k]@.subrange(step as int, frame as int),
                    forall|k: int| c < k < self.channels ==> #[trigger] self.input@[k] == old(self).input@[k],
                    forall|k: int| c < k < self.channels ==> #[trigger] self.output@[k] == old(self).output@[k],
                    forall|k: int| c < k < self.channels ==> #[trigger] self.accum@[k] == old(self).accum@[k],
                    self.accum@[c as int]@ == windows@[c as int]@.subrange(step as int, frame as int),
                    self.input@[c as int]@ == old(self).input@[c as int]@.subrange(j as int, lead as int),
                    self.output@[c as int]@ == old(self).output@[c as int]@ + windows@[c as int]@.subrange(0, j as int),
                decreases step - j,
            {
                self.output[c].push_back(windows[c][j]);
                let _ = self.input[c].pop_front();
                j = j + 1;
                assert(windows@[c as int]@.subrange(0, j as int) == windows@[c as int]@.subrange(0, j - 1).push(windows@[c as int]@[j - 1]));
            }
            c = c + 1;
        }
        proof {
            self.produced = Ghost((self.produced@ + step) as nat);
            let f = frame as int;
            let r = self.time_res as int;
            let s = step as int;
            let k = self.subframe as int;
            let n = self.channels as int;
            assert(s * r == f) by (nonlinear_arith)
                requires
                    s == f / r,
                    f % r == 0,
                    r >= 1,
            ;
            assert(self.input@[0]@.len() == lead - s);
            assert forall|j: int| 0 <= j < self.channels implies #[trigger] self.input@[j]@.len() == self.input@[0]@.len() by {
                assert(self.input@[j]@ == old(self).input@[j]@.subrange(s, lead as int));
            }
            assert forall|j: int| 0 <= j < self.channels implies #[trigger] self.accum@[j]@.len() <= self.frame_size by {
                assert(self.accum@[j]@ == windows@[j]@.subrange(s, f));
            }
            assert((lead - s) + (k + 1) * s == lead + k * s) by (nonlinear_arith);
            if k == 0 {
                assert(lead >= 2 * f) by (nonlinear_arith)
                    requires
                        n * (lead + 0 * s) >= 2 * f * n,
                        n >= 1,
                ;
            }
            assert(lead + k * s >= 2 * f);
            if k + 1 == r {
                assert(n * (lead + k * s) - f * n == n * (lead - s) && f * n <= n * (lead + k * s)) by (nonlinear_arith)
                    requires
                        s * r == f,
                        k + 1 == r,
                        lead + k * s >= 2 * f,
                        n >= 1,
                        f >= 0,
                ;
            }
        }
        if self.subframe + 1 == self.time_res {
            self.subframe = 0;
            self.samples_waiting = self.samples_waiting - frame * self.channels;
        } else {
            self.subframe = self.subframe + 1;
        }
    }

    /// Takes up to `max` finished samples from the front of channel `c`'s
    /// output queue, fewer when the queue holds fewer.
    pub fn drain(&mut self, c: usize, max: usize) -> (r: Vec<T>)
        requires
            old(self).wf(),
            c < old(self).channels(),
        ensures
            final(self).wf(),
            final(self).drained_from(old(self), c as int, max as nat, r@),
    {
        let mut r: Vec<T> = Vec::new();
        let mut i: usize = 0;
        let ghost all = self.output@[c as int]@;
        while i < max && self.output[c].len() > 0
            invariant
                i <= max,
                c < self.channels,
                self.channels == old(self).channels,
                self.frame_size == old(self).frame_size,
                self.time_res == old(self).time_res,
                self.subframe == old(self).subframe,
                self.samples_waiting == old(self).samples_waiting,
                self.supplied == old(self).supplied,
                self.produced == old(self).produced,
                self.input == old(self).input,
                self.accum == old(self).accum,
                self.output@.len() == self.channels,
                all == old(self).output@[c as int]@,
                forall|k: int| 0 <= k < self.channels && k != c ==> #[trigger] self.output@[k] == old(self).output@[k],
                i <= all.len(),
                r@.len() == i,
                r@ == all.subrange(0, i as int),
                self.output@[c as int]@ == all.subrange(i as int, all.len() as int),
            decreases max - i,
        {
            if let Some(x) = self.output[c].pop_front() {
                r.push(x);
            }
            i = i + 1;
            assert(all.subrange(0, i as int) == all.subrange(0, i - 1).push(all[i - 1]));
        }
        r
    }

    /// Number of channels.
    pub fn num_channels(&self) -> (r: usize)
        ensures
            r == self.channels(),
    {
        self.channels
    }

    /// Number of spectral bins, which is the effective frame size.
    pub fn num_bins(&self) -> (r: usize)
        ensures
            r == self.frame_size(),
    {
        self.frame_size
    }

    /// Number of overlapping sub-frames per frame.
    pub fn overlap_factor(&self) -> (r: usize)
        ensures
            r == self.time_res(),
    {
        self.time_res
    }

    /// Samples enqueued over all channels and not yet retired by a batch.
    pub fn samples_waiting(&self) -> (r: usize)
        ensures
            r == self.waiting(),
    {
        self.samples_waiting
    }
}

} // verus!
