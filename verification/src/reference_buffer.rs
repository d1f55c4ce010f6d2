//! A bounded first-in, first-out store for far-end (speaker) samples that
//! wait to be matched against near-end audio.
//!
//! Samples enter at the back and leave from the front. The store never holds
//! more than its ceiling once `feed` has returned: when an append overshoots
//! the ceiling, the oldest samples are dropped in one batch until only half a
//! ceiling of the most recent ones is left.

use vstd::prelude::*;

verus! {

/// `count` samples of silence.
pub open spec fn silence(count: nat) -> Seq<i16> {
    Seq::new(count, |i: int| 0i16)
}

/// What a store with ceiling `ceiling` holds after `incoming` is appended to
/// `held`: everything while it fits, else the newest `ceiling / 2` samples.
pub open spec fn fed(held: Seq<i16>, incoming: Seq<i16>, ceiling: nat) -> Seq<i16> {
    let all = held + incoming;
    if all.len() > ceiling {
        all.subrange(all.len() - ceiling / 2, all.len() as int)
    } else {
        all
    }
}

/// What a store holding `held` hands out when `count` samples are asked for:
/// its oldest `count` samples if it has that many, else `count` samples of
/// silence.
pub open spec fn drained(held: Seq<i16>, count: nat) -> Seq<i16> {
    if held.len() >= count {
        held.subrange(0, count as int)
    } else {
        silence(count)
    }
}

/// What a store holding `held` keeps when `count` samples are asked for: it
/// loses the samples it handed out, and is left alone when it had too few.
pub open spec fn kept(held: Seq<i16>, count: nat) -> Seq<i16> {
    if held.len() >= count {
        held.subrange(count as int, held.len() as int)
    } else {
        held
    }
}

/// What a store with ceiling `ceiling` holds after each chunk of `chunks` has
/// been fed to it in turn, starting from `held`.
pub open spec fn fed_all(held: Seq<i16>, chunks: Seq<Seq<i16>>, ceiling: nat) -> Seq<i16>
    decreases chunks.len(),
{
    if chunks.len() == 0 {
        held
    } else {
        fed(fed_all(held, chunks.drop_last(), ceiling), chunks.last(), ceiling)
    }
}

/// The bounded store of reference samples.
#[derive(Debug)]
pub struct ReferenceBuffer {
    samples: Vec<i16>,
    max_size: usize,
}

impl ReferenceBuffer {
    /// The samples held, oldest first.
    pub closed spec fn view(&self) -> Seq<i16> {
        self.samples@
    }

    /// The ceiling on the number of samples held.
    pub closed spec fn ceiling(&self) -> nat {
        self.max_size as nat
    }

    /// The store holds no more than its ceiling.
    pub open spec fn wf(&self) -> bool {
        self@.len() <= self.ceiling()
    }

    /// An empty store with the given ceiling.
    pub fn new(max_size: usize) -> (buffer: Self)
        ensures
            buffer@ == Seq::<i16>::empty(),
            buffer.ceiling() == max_size,
            buffer.wf(),
    {
        ReferenceBuffer { samples: Vec::with_capacity(max_size), max_size }
    }

    /// The number of samples held.
    pub fn len(&self) -> (count: usize)
        ensures
            count == self@.len(),
    {
        self.samples.len()
    }

    /// The ceiling on the number of samples held.
    pub fn max_size(&self) -> (ceiling: usize)
        ensures
            ceiling == self.ceiling(),
    {
        self.max_size
    }

    /// Appends `samples` at the back. If that overshoots the ceiling, the
    /// oldest samples are dropped until exactly `ceiling / 2` are left.
    pub fn feed(&mut self, samples: &[i16])
        ensures
            final(self)@ == fed(old(self)@, samples@, old(self).ceiling()),
            final(self).ceiling() == old(self).ceiling(),
            final(self).wf(),
            old(self)@.len() + samples@.len() > old(self).ceiling() ==> final(self)@.len()
                == old(self).ceiling() / 2,
    {
        self.samples.extend_from_slice(samples);
        assert(self.samples@ =~= old(self)@ + samples@);
        if self.samples.len() > self.max_size {
            let drain_count: usize = self.samples.len() - self.max_size / 2;
            let recent: Vec<i16> = self.samples.split_off(drain_count);
            self.samples = recent;
        }
    }

    /// Hands out `count` samples for one near-end chunk. With at least
    /// `count` samples in store, the oldest `count` leave it, oldest first.
    /// With fewer, the store is left as it is and silence is handed out.
    pub fn drain(&mut self, count: usize) -> (out: Vec<i16>)
        ensures
            out@ == drained(old(self)@, count as nat),
            out@.len() == count,
            final(self)@ == kept(old(self)@, count as nat),
            final(self).ceiling() == old(self).ceiling(),
            old(self).wf() ==> final(self).wf(),
    {
        if self.samples.len() >= count {
            let mut out: Vec<i16> = self.samples.split_off(count);
            std::mem::swap(&mut self.samples, &mut out);
            out
        } else {
            let out: Vec<i16> = vec![0i16; count];
            assert(out@ =~= silence(count as nat));
            out
        }
    }

    /// Drops every sample held. The ceiling stays.
    pub fn clear(&mut self)
        ensures
            final(self)@ == Seq::<i16>::empty(),
            final(self).ceiling() == old(self).ceiling(),
            final(self).wf(),
    {
        self.samples.clear();
    }
}

/// Buffer bound: however many chunks are fed, and whatever they hold, a store
/// that started within its ceiling is within it afterwards; and from the
/// first chunk on this holds of any starting state.
pub proof fn lemma_fed_all_bounded(held: Seq<i16>, chunks: Seq<Seq<i16>>, ceiling: nat)
    ensures
        held.len() <= ceiling || chunks.len() > 0 ==> fed_all(held, chunks, ceiling).len()
            <= ceiling,
    decreases chunks.len(),
{
    if chunks.len() > 0 {
        lemma_fed_all_bounded(held, chunks.drop_last(), ceiling);
    }
}

/// Eviction trigger: an append that pushes the length past the ceiling
/// leaves exactly `ceiling / 2` samples, the newest ones; any other append
/// evicts nothing.
pub proof fn lemma_eviction_trigger(held: Seq<i16>, incoming: Seq<i16>, ceiling: nat)
    ensures
        held.len() + incoming.len() > ceiling ==> {
            &&& fed(held, incoming, ceiling).len() == ceiling / 2
            &&& fed(held, incoming, ceiling) == (held + incoming).subrange(
                held.len() + incoming.len() - ceiling / 2,
                (held.len() + incoming.len()) as int,
            )
        },
        held.len() + incoming.len() <= ceiling ==> fed(held, incoming, ceiling) == held + incoming,
{
}

/// An empty store answers any request with silence of the requested length
/// and stays empty.
pub proof fn lemma_empty_store_gives_silence(count: nat)
    ensures
        drained(Seq::<i16>::empty(), count) == silence(count),
        drained(Seq::<i16>::empty(), count).len() == count,
        kept(Seq::<i16>::empty(), count) == Seq::<i16>::empty(),
{
    assert(drained(Seq::<i16>::empty(), count) =~= silence(count));
    assert(kept(Seq::<i16>::empty(), count) =~= Seq::<i16>::empty());
}

} // verus!
