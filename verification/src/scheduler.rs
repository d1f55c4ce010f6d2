//! Reconciles a near-end chunk of any length with an echo canceller that only
//! works on frames of one fixed size.
//!
//! The canceller itself is not part of this crate. A [`FrameScheduler`] holds
//! one chunk in flight: it hands out, one at a time and in order, the pairs of
//! near-end and reference windows that the canceller has to work on, takes
//! each cleaned frame back, and in the end returns the whole cleaned chunk.
//! Samples after the last full frame never reach the canceller; they are
//! copied to the output as they came in.

use crate::reference_buffer::{
    drained,
    kept,
    lemma_empty_store_gives_silence,
    silence,
    ReferenceBuffer,
};
use vstd::arithmetic::div_mod::{
    lemma_fundamental_div_mod,
    lemma_fundamental_div_mod_converse,
    lemma_mod_add_multiples_vanish,
    lemma_mod_pos_bound,
    lemma_small_mod,
};
use vstd::prelude::*;
use vstd::slice::slice_subrange;

verus! {

/// The frames of `frames` laid end to end.
pub open spec fn joined(frames: Seq<Seq<i16>>) -> Seq<i16>
    decreases frames.len(),
{
    if frames.len() == 0 {
        Seq::empty()
    } else {
        joined(frames.drop_last()) + frames.last()
    }
}

/// The `index`-th window of `frame_size` samples of `samples`, counted from
/// zero.
pub open spec fn window(samples: Seq<i16>, index: int, frame_size: nat) -> Seq<i16> {
    samples.subrange(index * frame_size, index * frame_size + frame_size)
}

/// The number of samples of a chunk of `len` samples that lie in full frames
/// of `frame_size` samples.
pub open spec fn aligned_len(len: nat, frame_size: nat) -> nat {
    ((len / frame_size) * frame_size) as nat
}

/// The samples of `samples` that follow its last full frame.
pub open spec fn remainder(samples: Seq<i16>, frame_size: nat) -> Seq<i16> {
    samples.subrange(aligned_len(samples.len(), frame_size) as int, samples.len() as int)
}

/// `target` with the samples from index `at` on replaced by `source`, as far
/// as `source` reaches.
pub open spec fn overwritten(target: Seq<i16>, at: int, source: Seq<i16>) -> Seq<i16> {
    target.subrange(0, at) + source + target.subrange(at + source.len(), target.len() as int)
}

/// One chunk on its way through the canceller, as a mathematical value.
pub struct Schedule {
    /// The near-end chunk as it came in.
    pub input: Seq<i16>,
    /// The reference samples that belong to the chunk, one for each of its
    /// samples.
    pub reference: Seq<i16>,
    /// The output as far as it has been written.
    pub output: Seq<i16>,
    /// The index at which the next frame starts.
    pub position: nat,
    /// The canceller's frame size.
    pub frame_size: nat,
}

impl Schedule {
    /// The lengths agree and the frames accepted so far make up a whole
    /// number of windows.
    pub open spec fn wf(self) -> bool {
        &&& self.frame_size > 0
        &&& self.reference.len() == self.input.len()
        &&& self.output.len() == self.input.len()
        &&& self.position <= self.input.len()
        &&& self.position % self.frame_size == 0
    }

    /// The state before any frame has gone to the canceller: the output is
    /// all zero.
    pub open spec fn start(input: Seq<i16>, reference: Seq<i16>, frame_size: nat) -> Schedule {
        Schedule { input, reference, output: silence(input.len()), position: 0, frame_size }
    }

    /// Whether a full frame is still to be cancelled.
    pub open spec fn has_pending(self) -> bool {
        self.position + self.frame_size <= self.input.len()
    }

    /// The near-end window that goes to the canceller next.
    pub open spec fn next_near(self) -> Seq<i16> {
        self.input.subrange(self.position as int, (self.position + self.frame_size) as int)
    }

    /// The reference window that goes to the canceller next.
    pub open spec fn next_reference(self) -> Seq<i16> {
        self.reference.subrange(self.position as int, (self.position + self.frame_size) as int)
    }

    /// The state after the canceller has answered the pending frame with
    /// `cleaned`.
    pub open spec fn accepted(self, cleaned: Seq<i16>) -> Schedule {
        Schedule {
            output: overwritten(self.output, self.position as int, cleaned),
            position: self.position + self.frame_size,
            ..self
        }
    }

    /// The state after the canceller has answered one frame after the other
    /// with the entries of `cleaned`.
    pub open spec fn accepted_all(self, cleaned: Seq<Seq<i16>>) -> Schedule
        decreases cleaned.len(),
    {
        if cleaned.len() == 0 {
            self
        } else {
            self.accepted_all(cleaned.drop_last()).accepted(cleaned.last())
        }
    }

    /// The chunk that is returned: what the canceller wrote, then the rest
    /// of the input as it came in.
    pub open spec fn finished(self) -> Seq<i16> {
        self.output.subrange(0, self.position as int) + self.input.subrange(
            self.position as int,
            self.input.len() as int,
        )
    }
}

/// Copies `source` over the samples of `target` that start at index `at`.
pub fn overwrite(target: &mut Vec<i16>, at: usize, source: &[i16])
    requires
        at + source@.len() <= old(target)@.len(),
    ensures
        final(target)@ == overwritten(old(target)@, at as int, source@),
        final(target)@.len() == old(target)@.len(),
{
    let ghost before = target@;
    let mut i: usize = 0;
    while i < source.len()
        invariant
            i <= source@.len(),
            at + source@.len() <= before.len(),
            target.len() == before.len(),
            forall|k: int| 0 <= k < at ==> target@[k] == before[k],
            forall|k: int| at <= k < at + i ==> target@[k] == source@[k - at],
            forall|k: int| at + i <= k < before.len() ==> target@[k] == before[k],
        decreases source@.len() - i,
    {
        target[at + i] = source[i];
        i += 1;
    }
    assert(target@ =~= overwritten(before, at as int, source@));
}

/// One near-end chunk in flight between the caller and the canceller.
#[derive(Debug)]
pub struct FrameScheduler {
    frame_size: usize,
    input: Vec<i16>,
    reference: Vec<i16>,
    output: Vec<i16>,
    offset: usize,
}

impl FrameScheduler {
    /// The state of the chunk as a mathematical value.
    pub closed spec fn view(&self) -> Schedule {
        Schedule {
            input: self.input@,
            reference: self.reference@,
            output: self.output@,
            position: self.offset as nat,
            frame_size: self.frame_size as nat,
        }
    }

    /// The scheduler is in a valid state: every scheduler that `start` made
    /// is, and stays so.
    pub open spec fn wf(&self) -> bool {
        self@.wf()
    }

    /// Takes in the chunk `input`. The reference samples that belong to it
    /// are drawn from `buffer`, as many as the chunk has samples; a buffer
    /// that holds fewer is left alone and stands in with silence. The output
    /// starts out as zeros.
    pub fn start(frame_size: usize, input: Vec<i16>, buffer: &mut ReferenceBuffer) -> (job: Self)
        requires
            frame_size > 0,
        ensures
            job@ == Schedule::start(
                input@,
                drained(old(buffer)@, input@.len()),
                frame_size as nat,
            ),
            job.wf(),
            final(buffer)@ == kept(old(buffer)@, input@.len()),
            final(buffer).ceiling() == old(buffer).ceiling(),
            old(buffer).wf() ==> final(buffer).wf(),
    {
        let reference: Vec<i16> = buffer.drain(input.len());
        let output: Vec<i16> = vec![0i16; input.len()];
        assert(output@ =~= silence(input@.len()));
        proof {
            lemma_start_is_valid(input@, reference@, frame_size as nat);
        }
        FrameScheduler { frame_size, input, reference, output, offset: 0 }
    }

    /// Whether a full frame is still to be cancelled.
    pub fn has_pending(&self) -> (pending: bool)
        requires
            self.wf(),
        ensures
            pending == self@.has_pending(),
    {
        self.frame_size <= self.input.len() - self.offset
    }

    /// The work for the canceller: the next near-end window and the
    /// reference window that goes with it, or `None` once fewer samples than
    /// a frame are left.
    pub fn next_frame(&self) -> (frame: Option<(&[i16], &[i16])>)
        requires
            self.wf(),
        ensures
            frame is Some <==> self@.has_pending(),
            frame matches Some(pair) ==> pair.0@ == self@.next_near() && pair.1@
                == self@.next_reference(),
    {
        if self.frame_size <= self.input.len() - self.offset {
            let end: usize = self.offset + self.frame_size;
            let near: &[i16] = slice_subrange(self.input.as_slice(), self.offset, end);
            let reference: &[i16] = slice_subrange(self.reference.as_slice(), self.offset, end);
            Some((near, reference))
        } else {
            None
        }
    }

    /// Takes the canceller's answer to the pending frame: `cleaned` becomes
    /// the corresponding window of the output, and the next frame is due.
    pub fn accept(&mut self, cleaned: &[i16])
        requires
            old(self).wf(),
            old(self)@.has_pending(),
            cleaned@.len() == old(self)@.frame_size,
        ensures
            final(self)@ == old(self)@.accepted(cleaned@),
            final(self).wf(),
    {
        proof {
            lemma_accepted_is_valid(self@, cleaned@);
        }
        assert(self.offset + self.frame_size <= self.input.len());
        overwrite(&mut self.output, self.offset, cleaned);
        self.offset = self.offset + self.frame_size;
    }

    /// Ends the chunk once no full frame is pending: the samples after the
    /// last full frame are copied from the input, and the whole output is
    /// returned. It is as long as the input.
    pub fn finish(self) -> (output: Vec<i16>)
        requires
            self.wf(),
            !self@.has_pending(),
        ensures
            output@ == self@.finished(),
            output@.len() == self@.input.len(),
            ({
                let aligned = aligned_len(self@.input.len(), self@.frame_size) as int;
                &&& output@.subrange(0, aligned) == self@.output.subrange(0, aligned)
                &&& output@.subrange(aligned, output@.len() as int) == remainder(
                    self@.input,
                    self@.frame_size,
                )
            }),
    {
        proof {
            lemma_position_at_the_end(self@);
        }
        let ghost state = self@;
        let FrameScheduler { frame_size: _, input, reference: _, output, offset } = self;
        let mut output: Vec<i16> = output;
        let rest: &[i16] = slice_subrange(input.as_slice(), offset, input.len());
        overwrite(&mut output, offset, rest);
        assert(output@ =~= state.finished());
        assert(output@.subrange(0, state.position as int) =~= state.output.subrange(
            0,
            state.position as int,
        ));
        assert(output@.subrange(state.position as int, state.input.len() as int) =~= remainder(
            state.input,
            state.frame_size,
        ));
        output
    }
}

/// The state in which a chunk starts out is a valid one.
pub proof fn lemma_start_is_valid(input: Seq<i16>, reference: Seq<i16>, frame_size: nat)
    requires
        frame_size > 0,
        reference.len() == input.len(),
    ensures
        Schedule::start(input, reference, frame_size).wf(),
{
    lemma_small_mod(0, frame_size);
}

/// Accepting a frame of the right size for a pending window leads from a
/// valid state to a valid state, and leaves the chunk and its reference as
/// they were.
pub proof fn lemma_accepted_is_valid(state: Schedule, cleaned: Seq<i16>)
    requires
        state.wf(),
        state.has_pending(),
        cleaned.len() == state.frame_size,
    ensures
        state.accepted(cleaned).wf(),
        state.accepted(cleaned).input == state.input,
        state.accepted(cleaned).reference == state.reference,
        state.accepted(cleaned).frame_size == state.frame_size,
{
    lemma_mod_add_multiples_vanish(state.position as int, state.frame_size as int);
}

/// Once no full frame is pending, every full frame of the chunk has been
/// through the canceller, and only those: the position is the aligned length
/// of the chunk.
pub proof fn lemma_position_at_the_end(state: Schedule)
    requires
        state.wf(),
        !state.has_pending(),
    ensures
        state.position == aligned_len(state.input.len(), state.frame_size),
        state.input.len() - state.position < state.frame_size,
{
    let len = state.input.len() as int;
    let size = state.frame_size as int;
    let position = state.position as int;
    lemma_fundamental_div_mod(position, size);
    assert(position == size * (position / size));
    lemma_fundamental_div_mod_converse(len, size, position / size, len - position);
    assert((position / size) * size == size * (position / size)) by (nonlinear_arith);
}

/// The length of frames laid end to end, when each has `frame_size` samples.
pub proof fn lemma_joined_len(frames: Seq<Seq<i16>>, frame_size: nat)
    requires
        forall|k: int| 0 <= k < frames.len() ==> (#[trigger] frames[k]).len() == frame_size,
    ensures
        joined(frames).len() == frames.len() * frame_size,
    decreases frames.len(),
{
    if frames.len() > 0 {
        lemma_joined_len(frames.drop_last(), frame_size);
        assert(frames.len() * frame_size == (frames.len() - 1) * frame_size + frame_size)
            by (nonlinear_arith);
    } else {
        assert(frames.len() * frame_size == 0) by (nonlinear_arith)
            requires
                frames.len() == 0,
        ;
    }
}

/// Frame alignment, step by step: after the canceller has answered the first
/// frames of a chunk, the schedule is valid, the next frame starts right
/// after them, and the output so far is the answers laid end to end.
pub proof fn lemma_accepted_all(
    input: Seq<i16>,
    reference: Seq<i16>,
    frame_size: nat,
    cleaned: Seq<Seq<i16>>,
)
    requires
        frame_size > 0,
        reference.len() == input.len(),
        cleaned.len() * frame_size <= input.len(),
        forall|k: int| 0 <= k < cleaned.len() ==> (#[trigger] cleaned[k]).len() == frame_size,
    ensures
        ({
            let state = Schedule::start(input, reference, frame_size).accepted_all(cleaned);
            &&& state.wf()
            &&& state.input == input
            &&& state.reference == reference
            &&& state.frame_size == frame_size
            &&& state.position == cleaned.len() * frame_size
            &&& state.output.subrange(0, state.position as int) == joined(cleaned)
        }),
    decreases cleaned.len(),
{
    let first = Schedule::start(input, reference, frame_size);
    let state = first.accepted_all(cleaned);
    if cleaned.len() == 0 {
        assert(cleaned.len() * frame_size == 0) by (nonlinear_arith)
            requires
                cleaned.len() == 0,
        ;
        lemma_start_is_valid(input, reference, frame_size);
        assert(state.output.subrange(0, 0) =~= joined(cleaned));
    } else {
        let earlier = cleaned.drop_last();
        let count = cleaned.len() as int;
        let size = frame_size as int;
        assert(count * size == (count - 1) * size + size) by (nonlinear_arith);
        assert((count - 1) * size >= 0) by (nonlinear_arith)
            requires
                count >= 1,
                size > 0,
        ;
        lemma_accepted_all(input, reference, frame_size, earlier);
        let before = first.accepted_all(earlier);
        lemma_accepted_is_valid(before, cleaned.last());
        assert(state == before.accepted(cleaned.last()));
        assert(state.output.subrange(0, state.position as int) =~= joined(earlier)
            + cleaned.last());
    }
}

/// Frame alignment: when the canceller answers every full frame of a chunk,
/// in order, with the entries of `cleaned`, then the `k`-th call is handed the
/// `k`-th window of the chunk and the `k`-th window of its reference, the
/// chunk that comes back is the answers laid end to end followed by the
/// samples after the last full frame exactly as they came in, and it is as
/// long as the chunk.
pub proof fn lemma_frame_alignment(
    input: Seq<i16>,
    reference: Seq<i16>,
    frame_size: nat,
    cleaned: Seq<Seq<i16>>,
)
    requires
        frame_size > 0,
        reference.len() == input.len(),
        cleaned.len() == input.len() / frame_size,
        forall|k: int| 0 <= k < cleaned.len() ==> (#[trigger] cleaned[k]).len() == frame_size,
    ensures
        forall|k: int|
            0 <= k < cleaned.len() ==> {
                let state = #[trigger] Schedule::start(input, reference, frame_size).accepted_all(
                    cleaned.take(k),
                );
                &&& state.wf()
                &&& state.has_pending()
                &&& state.next_near() == window(input, k, frame_size)
                &&& state.next_reference() == window(reference, k, frame_size)
            },
        ({
            let state = Schedule::start(input, reference, frame_size).accepted_all(cleaned);
            &&& state.wf()
            &&& !state.has_pending()
            &&& state.finished() == joined(cleaned) + remainder(input, frame_size)
            &&& state.finished().len() == input.len()
        }),
{
    let first = Schedule::start(input, reference, frame_size);
    let len = input.len() as int;
    let size = frame_size as int;
    let count = cleaned.len() as int;
    lemma_fundamental_div_mod(len, size);
    lemma_mod_pos_bound(len, size);
    assert(count * size == size * count) by (nonlinear_arith);
    assert forall|k: int| 0 <= k < cleaned.len() implies {
        let state = #[trigger] first.accepted_all(cleaned.take(k));
        &&& state.wf()
        &&& state.has_pending()
        &&& state.next_near() == window(input, k, frame_size)
        &&& state.next_reference() == window(reference, k, frame_size)
    } by {
        assert(k * size + size <= count * size) by (nonlinear_arith)
            requires
                0 <= k < count,
                size > 0,
        ;
        assert(k * size >= 0) by (nonlinear_arith)
            requires
                0 <= k,
                size > 0,
        ;
        lemma_accepted_all(input, reference, frame_size, cleaned.take(k));
    }
    lemma_accepted_all(input, reference, frame_size, cleaned);
    lemma_joined_len(cleaned, frame_size);
    let state = first.accepted_all(cleaned);
    assert(state.finished() =~= joined(cleaned) + remainder(input, frame_size));
}

/// Graceful silence: a chunk that meets an empty reference buffer is matched
/// with silence and leaves the buffer empty; and whatever the canceller
/// answers to its frames, the chunk comes back as long as it came in.
pub proof fn lemma_graceful_silence(input: Seq<i16>, frame_size: nat, cleaned: Seq<Seq<i16>>)
    requires
        frame_size > 0,
        cleaned.len() == input.len() / frame_size,
        forall|k: int| 0 <= k < cleaned.len() ==> (#[trigger] cleaned[k]).len() == frame_size,
    ensures
        drained(Seq::<i16>::empty(), input.len()) == silence(input.len()),
        kept(Seq::<i16>::empty(), input.len()) == Seq::<i16>::empty(),
        Schedule::start(input, silence(input.len()), frame_size).accepted_all(
            cleaned,
        ).finished().len() == input.len(),
{
    lemma_empty_store_gives_silence(input.len());
    lemma_frame_alignment(input, silence(input.len()), frame_size, cleaned);
}

} // verus!
