//! The session's operations on raw byte buffers, as a host that deals in
//! bytes calls them.
//!
//! A byte buffer holds 16-bit little-endian PCM samples of one channel. A
//! trailing odd byte is ignored.

use crate::codec::{decode, decoded, encode, encoded};
use crate::processor::AecProcessor;
use crate::reference_buffer::{drained, fed, kept};
use crate::scheduler::{FrameScheduler, Schedule};
use vstd::prelude::*;

verus! {

/// Feeds the far-end samples held by `bytes` to the session's reference
/// buffer.
pub fn feed_reference(session: &mut AecProcessor, bytes: &[u8])
    requires
        old(session).wf(),
    ensures
        final(session).wf(),
        final(session).config() == old(session).config(),
        final(session).metrics() == old(session).metrics(),
        final(session).reference() == fed(
            old(session).reference(),
            decoded(bytes@),
            old(session).config().reference_ceiling(),
        ),
        final(session).reference().len() <= final(session).config().reference_ceiling(),
{
    let samples: Vec<i16> = decode(bytes);
    session.feed_reference(samples.as_slice());
}

/// Starts the processing of the near-end chunk held by `bytes`.
pub fn begin_process(session: &mut AecProcessor, bytes: &[u8]) -> (job: FrameScheduler)
    requires
        old(session).wf(),
    ensures
        final(session).wf(),
        final(session).config() == old(session).config(),
        final(session).metrics() == old(session).metrics(),
        final(session).reference() == kept(old(session).reference(), decoded(bytes@).len()),
        job.wf(),
        job@ == Schedule::start(
            decoded(bytes@),
            drained(old(session).reference(), decoded(bytes@).len()),
            old(session).config().frame_size as nat,
        ),
{
    let input: Vec<i16> = decode(bytes);
    session.begin_process(input)
}

/// Ends the processing of a chunk and returns the cleaned chunk as bytes,
/// two for each sample of the chunk that came in.
pub fn finish_process(session: &mut AecProcessor, job: FrameScheduler, elapsed_us: u64) -> (bytes:
    Vec<u8>)
    requires
        old(session).wf(),
        job.wf(),
        !job@.has_pending(),
    ensures
        final(session).wf(),
        final(session).config() == old(session).config(),
        final(session).reference() == old(session).reference(),
        final(session).metrics() == old(session).metrics().recorded(elapsed_us),
        bytes@ == encoded(job@.finished()),
        bytes@.len() == 2 * job@.input.len(),
{
    let output: Vec<i16> = session.finish_process(job, elapsed_us);
    encode(output.as_slice())
}

/// Length preservation: a chunk that comes in as a byte buffer of even
/// length goes out as a byte buffer of the same length, whatever the
/// reference was and whatever the canceller wrote.
pub proof fn lemma_length_preserved(bytes: Seq<u8>, state: Schedule)
    requires
        bytes.len() % 2 == 0,
        state.wf(),
        state.input == decoded(bytes),
    ensures
        encoded(state.finished()).len() == bytes.len(),
{
}

} // verus!
