//! A sample buffer that keeps only the most recent history.
use vstd::prelude::*;

verus! {

/// The buffer keeps at most this many chunks' worth of samples, measured by
/// the length of the chunk appended last.
pub const CAPACITY_FACTOR: usize = 16;

/// The suffix of `s` of length `max_len`, or `s` itself when it is no longer.
pub open spec fn trimmed(s: Seq<i16>, max_len: nat) -> Seq<i16> {
    if s.len() > max_len {
        s.subrange(s.len() - max_len, s.len() as int)
    } else {
        s
    }
}

/// One producer cycle: append `chunk`, then trim to `factor` times its length.
pub open spec fn after_cycle(buf: Seq<i16>, chunk: Seq<i16>, factor: nat) -> Seq<i16> {
    trimmed(buf + chunk, factor * chunk.len())
}

/// The buffer contents after the cycles for `chunks`, in order, starting empty.
pub open spec fn after_cycles(chunks: Seq<Seq<i16>>, factor: nat) -> Seq<i16>
    decreases chunks.len(),
{
    if chunks.len() == 0 {
        Seq::empty()
    } else {
        after_cycle(after_cycles(chunks.drop_last(), factor), chunks.last(), factor)
    }
}

/// An ordered store of 16-bit PCM samples with a soft capacity bound.
pub struct RingBuffer {
    samples: Vec<i16>,
}

impl View for RingBuffer {
    type V = Seq<i16>;

    closed spec fn view(&self) -> Seq<i16> {
        self.samples@
    }
}

impl RingBuffer {
    /// An empty buffer.
    pub fn new() -> (r: RingBuffer)
        ensures
            r@ == Seq::<i16>::empty(),
    {
        RingBuffer { samples: Vec::new() }
    }

    /// The number of samples held.
    pub fn len(&self) -> (r: usize)
        ensures
            r == self@.len(),
    {
        self.samples.len()
    }

    /// Appends every sample of `chunk` after the current contents, in order.
    pub fn append(&mut self, chunk: &[i16])
        ensures
            final(self)@ == old(self)@ + chunk@,
    {
        self.samples.extend_from_slice(chunk);
        assert(self@ =~= old(self)@ + chunk@);
    }

    /// Drops the oldest samples so that at most `max_len` remain; the most
    /// recent ones are kept in their order.
    pub fn trim_to(&mut self, max_len: usize)
        ensures
            final(self)@ == trimmed(old(self)@, max_len as nat),
    {
        let len = self.samples.len();
        if len > max_len {
            let kept = self.samples.split_off(len - max_len);
            self.samples = kept;
        }
    }

    /// A copy of the current contents.
    pub fn snapshot(&self) -> (r: Vec<i16>)
        ensures
            r@ == self@,
    {
        let mut r: Vec<i16> = Vec::with_capacity(self.samples.len());
        let mut i: usize = 0;
        while i < self.samples.len()
            invariant
                i <= self.samples@.len(),
                r@ == self.samples@.subrange(0, i as int),
            decreases self.samples@.len() - i,
        {
            r.push(self.samples[i]);
            i += 1;
        }
        assert(r@ =~= self.samples@);
        r
    }

    /// One producer cycle: appends `chunk`, then trims the buffer to `factor`
    /// times the chunk's length (a bound past `usize::MAX` trims nothing).
    pub fn append_and_trim(&mut self, chunk: &[i16], factor: usize)
        ensures
            final(self)@ == after_cycle(old(self)@, chunk@, factor as nat),
            final(self)@.len() <= factor * chunk@.len(),
            factor >= 1 ==> final(self)@.len() >= chunk@.len() && final(self)@.subrange(
                final(self)@.len() - chunk@.len(),
                final(self)@.len() as int,
            ) == chunk@,
    {
        self.append(chunk);
        let ghost appended = self@;
        let total = self.samples.len();
        let bound = match factor.checked_mul(chunk.len()) {
            Some(b) => b,
            None => usize::MAX,
        };
        self.trim_to(bound);
        proof {
            lemma_cycle_bound(old(self)@, chunk@, factor as nat);
            if bound as int != factor * chunk@.len() {
                assert(total <= bound < factor * chunk@.len());
                assert(trimmed(appended, bound as nat) == appended);
            }
        }
    }
}

/// Each append-then-trim cycle leaves at most `factor` times the length of
/// the chunk just appended, and with a factor of one or more it keeps that
/// whole chunk at the end.
pub proof fn lemma_cycle_bound(buf: Seq<i16>, chunk: Seq<i16>, factor: nat)
    ensures
        after_cycle(buf, chunk, factor).len() <= factor * chunk.len(),
        factor >= 1 ==> {
            let r = after_cycle(buf, chunk, factor);
            r.len() >= chunk.len() && r.subrange(r.len() - chunk.len(), r.len() as int) =~= chunk
        },
{
    if factor >= 1 {
        assert(factor * chunk.len() >= chunk.len()) by (nonlinear_arith)
            requires
                factor >= 1,
        ;
    }
}

/// For any sequence of chunks appended from an empty buffer, after each
/// cycle the buffer holds at most `factor` times the length of the most
/// recent chunk.
pub proof fn lemma_buffer_bound(chunks: Seq<Seq<i16>>, factor: nat)
    ensures
        forall|i: int|
            0 <= i < chunks.len() ==> (#[trigger] after_cycles(chunks.take(i + 1), factor)).len()
                <= factor * chunks[i].len(),
{
    assert forall|i: int| 0 <= i < chunks.len() implies (#[trigger] after_cycles(
        chunks.take(i + 1),
        factor,
    )).len() <= factor * chunks[i].len() by {
        let p = chunks.take(i + 1);
        assert(p.drop_last() =~= chunks.take(i));
        assert(p.last() == chunks[i]);
        lemma_cycle_bound(after_cycles(chunks.take(i), factor), chunks[i], factor);
    }
}

} // verus!
