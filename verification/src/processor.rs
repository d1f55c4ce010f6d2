//! The echo-cancellation session: its configuration, its reference buffer and
//! its counters.
//!
//! A session is created from a validated configuration and lives until it is
//! dropped. Far-end audio is fed to it as it is played; near-end audio goes
//! through it chunk by chunk. The canceller that cleans the frames of a chunk
//! belongs to the caller: `begin_process` returns the schedule of the chunk,
//! the caller runs the canceller on each frame that the schedule hands out,
//! and `finish_process` returns the cleaned chunk and counts it.

use crate::metrics::{Metrics, MetricsAccumulator};
use crate::reference_buffer::{drained, fed, kept, ReferenceBuffer};
use crate::scheduler::{FrameScheduler, Schedule};
use vstd::prelude::*;

verus! {

/// The largest frame size that a session accepts, in samples.
pub const MAX_FRAME_SIZE: usize = 16384;

/// The smallest filter length that a session accepts, in samples.
pub const MIN_FILTER_LENGTH: usize = 64;

/// The largest filter length that a session accepts, in samples.
pub const MAX_FILTER_LENGTH: usize = 2048;

/// How many filter lengths of reference audio a session retains at most.
pub const RETAINED_FILTER_LENGTHS: usize = 4;

/// Why a configuration was turned down. The value is the one that was out of
/// range.
#[derive(Clone, Copy, Debug, PartialEq, Eq, Structural)]
pub enum InvalidConfiguration {
    /// The frame size is zero or above `MAX_FRAME_SIZE`.
    FrameSize(usize),
    /// The filter length is below `MIN_FILTER_LENGTH` or above
    /// `MAX_FILTER_LENGTH`.
    FilterLength(usize),
}

/// The parameters of a session.
#[derive(Clone, Copy, Debug, PartialEq, Eq, Structural)]
pub struct ProcessorConfig {
    /// Samples per second.
    pub sample_rate: u32,
    /// The number of samples in each frame that goes to the canceller.
    pub frame_size: usize,
    /// The length of the canceller's adaptive filter, in samples.
    pub filter_length: usize,
}

/// What the canceller of a session has to be set up with.
#[derive(Clone, Copy, Debug, PartialEq, Eq, Structural)]
pub struct CancellerSettings {
    /// The number of samples in each frame.
    pub frame_size: usize,
    /// The length of the adaptive filter, in samples.
    pub filter_length: i32,
    /// Samples per second.
    pub sample_rate: u32,
    /// Whether the canceller post-processes its output. Always off.
    pub enable_preprocess: bool,
}

impl ProcessorConfig {
    /// The frame size is in range.
    pub open spec fn frame_size_in_range(self) -> bool {
        0 < self.frame_size <= MAX_FRAME_SIZE
    }

    /// The filter length is in range.
    pub open spec fn filter_length_in_range(self) -> bool {
        MIN_FILTER_LENGTH <= self.filter_length <= MAX_FILTER_LENGTH
    }

    /// A session can be created with these parameters.
    pub open spec fn valid(self) -> bool {
        self.frame_size_in_range() && self.filter_length_in_range()
    }

    /// The reason for which these parameters are turned down, if they are.
    /// The frame size is looked at first.
    pub open spec fn rejection(self) -> Option<InvalidConfiguration> {
        if !self.frame_size_in_range() {
            Some(InvalidConfiguration::FrameSize(self.frame_size))
        } else if !self.filter_length_in_range() {
            Some(InvalidConfiguration::FilterLength(self.filter_length))
        } else {
            None
        }
    }

    /// The ceiling of the reference buffer of a session with these
    /// parameters: four filter lengths.
    pub open spec fn reference_ceiling(self) -> nat {
        (RETAINED_FILTER_LENGTHS * self.filter_length) as nat
    }

    /// The settings of the canceller that goes with these parameters.
    pub open spec fn settings(self) -> CancellerSettings {
        CancellerSettings {
            frame_size: self.frame_size,
            filter_length: self.filter_length as i32,
            sample_rate: self.sample_rate,
            enable_preprocess: false,
        }
    }

    /// Checks the parameters: first the frame size, then the filter length.
    pub fn validate(&self) -> (outcome: Result<(), InvalidConfiguration>)
        ensures
            outcome is Ok <==> self.valid(),
            outcome matches Err(reason) ==> self.rejection() == Some(reason),
    {
        if self.frame_size == 0 || self.frame_size > MAX_FRAME_SIZE {
            return Err(InvalidConfiguration::FrameSize(self.frame_size));
        }
        if self.filter_length < MIN_FILTER_LENGTH || self.filter_length > MAX_FILTER_LENGTH {
            return Err(InvalidConfiguration::FilterLength(self.filter_length));
        }
        Ok(())
    }

    /// The settings of the canceller that goes with these parameters: the
    /// same frame size, filter length and sample rate, post-processing off.
    pub fn canceller_settings(&self) -> (settings: CancellerSettings)
        requires
            self.valid(),
        ensures
            settings == self.settings(),
            settings.filter_length == self.filter_length,
    {
        CancellerSettings {
            frame_size: self.frame_size,
            filter_length: self.filter_length as i32,
            sample_rate: self.sample_rate,
            enable_preprocess: false,
        }
    }
}

/// One echo-cancellation session, without its canceller.
#[derive(Debug)]
pub struct AecProcessor {
    config: ProcessorConfig,
    reference: ReferenceBuffer,
    metrics: MetricsAccumulator,
}

impl AecProcessor {
    /// The parameters that the session was created with.
    pub closed spec fn config(&self) -> ProcessorConfig {
        self.config
    }

    /// The reference samples in store, oldest first.
    pub closed spec fn reference(&self) -> Seq<i16> {
        self.reference@
    }

    /// The current reading of the counters.
    pub closed spec fn metrics(&self) -> Metrics {
        self.metrics@
    }

    /// The session is in a valid state: its parameters are valid, and its
    /// reference buffer has the ceiling that goes with them and is within it.
    /// Every session that `new` made is valid, and stays so.
    pub closed spec fn wf(&self) -> bool {
        &&& self.config.valid()
        &&& self.reference.ceiling() == self.config.reference_ceiling()
        &&& self.reference.wf()
    }

    /// Buffer bound: a valid session has valid parameters and holds no more
    /// than four filter lengths of reference samples.
    pub proof fn lemma_reference_bounded(&self)
        requires
            self.wf(),
        ensures
            self.config().valid(),
            self.reference().len() <= RETAINED_FILTER_LENGTHS * self.config().filter_length,
    {
    }

    /// Creates a session. Fails if the frame size is zero or above 16384, or
    /// else if the filter length is below 64 or above 2048. A new session has
    /// an empty reference buffer and both counters at zero.
    pub fn new(sample_rate: u32, frame_size: usize, filter_length: usize) -> (outcome: Result<
        Self,
        InvalidConfiguration,
    >)
        ensures
            outcome is Ok <==> (ProcessorConfig { sample_rate, frame_size, filter_length }).valid(),
            outcome matches Ok(session) ==> {
                &&& session.wf()
                &&& session.config() == (ProcessorConfig { sample_rate, frame_size, filter_length })
                &&& session.reference() == Seq::<i16>::empty()
                &&& session.metrics() == Metrics::zero()
            },
            outcome matches Err(reason) ==> (ProcessorConfig {
                sample_rate,
                frame_size,
                filter_length,
            }).rejection() == Some(reason),
    {
        let config = ProcessorConfig { sample_rate, frame_size, filter_length };
        match config.validate() {
            Err(reason) => Err(reason),
            Ok(()) => {
                let max_ref_size: usize = filter_length * RETAINED_FILTER_LENGTHS;
                Ok(
                    AecProcessor {
                        config,
                        reference: ReferenceBuffer::new(max_ref_size),
                        metrics: MetricsAccumulator::new(),
                    },
                )
            },
        }
    }

    /// The samples per second that the session was created with.
    pub fn sample_rate(&self) -> (rate: u32)
        ensures
            rate == self.config().sample_rate,
    {
        self.config.sample_rate
    }

    /// The number of samples in each frame that goes to the canceller.
    pub fn frame_size(&self) -> (size: usize)
        ensures
            size == self.config().frame_size,
    {
        self.config.frame_size
    }

    /// The filter length that the session was created with.
    pub fn filter_length(&self) -> (length: usize)
        ensures
            length == self.config().filter_length,
    {
        self.config.filter_length
    }

    /// The number of reference samples in store.
    pub fn reference_len(&self) -> (count: usize)
        ensures
            count == self.reference().len(),
    {
        self.reference.len()
    }

    /// The settings that the canceller of this session has to be set up
    /// with.
    pub fn canceller_settings(&self) -> (settings: CancellerSettings)
        requires
            self.wf(),
        ensures
            settings == self.config().settings(),
            settings.filter_length == self.config().filter_length,
            settings.enable_preprocess == false,
    {
        self.config.canceller_settings()
    }

    /// Appends far-end samples to the reference buffer. If the buffer then
    /// holds more than four filter lengths, its oldest samples are dropped
    /// until two filter lengths are left.
    pub fn feed_reference(&mut self, samples: &[i16])
        requires
            old(self).wf(),
        ensures
            final(self).wf(),
            final(self).config() == old(self).config(),
            final(self).metrics() == old(self).metrics(),
            final(self).reference() == fed(
                old(self).reference(),
                samples@,
                old(self).config().reference_ceiling(),
            ),
            final(self).reference().len() <= final(self).config().reference_ceiling(),
            old(self).reference().len() + samples@.len() > old(self).config().reference_ceiling()
                ==> final(self).reference().len() == 2 * old(self).config().filter_length,
    {
        self.reference.feed(samples);
    }

    /// Starts the processing of the near-end chunk `input`. The reference
    /// samples that belong to the chunk leave the buffer, as many as the chunk
    /// has samples and oldest first; a buffer that holds fewer keeps them all,
    /// and the chunk is matched with silence.
    pub fn begin_process(&mut self, input: Vec<i16>) -> (job: FrameScheduler)
        requires
            old(self).wf(),
        ensures
            final(self).wf(),
            final(self).config() == old(self).config(),
            final(self).metrics() == old(self).metrics(),
            final(self).reference() == kept(old(self).reference(), input@.len()),
            job.wf(),
            job@ == Schedule::start(
                input@,
                drained(old(self).reference(), input@.len()),
                old(self).config().frame_size as nat,
            ),
    {
        FrameScheduler::start(self.config.frame_size, input, &mut self.reference)
    }

    /// Ends the processing of a chunk whose full frames have all been
    /// through the canceller, in `elapsed_us` microseconds: returns the
    /// cleaned chunk, which is as long as the chunk that came in, and counts
    /// one more chunk and the time it took.
    pub fn finish_process(&mut self, job: FrameScheduler, elapsed_us: u64) -> (output: Vec<i16>)
        requires
            old(self).wf(),
            job.wf(),
            !job@.has_pending(),
        ensures
            final(self).wf(),
            final(self).config() == old(self).config(),
            final(self).reference() == old(self).reference(),
            final(self).metrics() == old(self).metrics().recorded(elapsed_us),
            output@ == job@.finished(),
            output@.len() == job@.input.len(),
    {
        let output: Vec<i16> = job.finish();
        self.metrics.record(elapsed_us);
        output
    }

    /// Empties the reference buffer and sets both counters to zero. The
    /// parameters stay. The caller's canceller is not touched: what it has
    /// adapted to so far stays with it.
    pub fn reset(&mut self)
        requires
            old(self).wf(),
        ensures
            final(self).wf(),
            final(self).config() == old(self).config(),
            final(self).reference() == Seq::<i16>::empty(),
            final(self).metrics() == Metrics::zero(),
    {
        self.reference.clear();
        self.metrics.reset();
    }

    /// Reads the counters: the number of chunks processed, then the time
    /// spent on them in microseconds.
    pub fn get_metrics(&self) -> (reading: (u64, u64))
        ensures
            reading.0 == self.metrics().total_frames,
            reading.1 == self.metrics().processing_time_us,
    {
        self.metrics.snapshot()
    }
}

} // verus!
