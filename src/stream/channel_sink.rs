use vstd::prelude::*;

verus! {

/// Bytes of one second of stereo audio at 44.1 kHz, four bytes a sample.
pub const BYTES_PER_SECOND: u64 = 352800;

/// Whole seconds of a duration in milliseconds; a negative one counts as none.
pub open spec fn whole_seconds(duration_ms: i32) -> int {
    if duration_ms >= 1000 {
        duration_ms as int / 1000
    } else {
        0
    }
}

/// The estimated byte size of a track of the given duration, capped at the
/// largest `usize`.
pub open spec fn approximate_bytes(duration_ms: i32) -> int {
    let b = whole_seconds(duration_ms) * BYTES_PER_SECOND;
    if b <= usize::MAX {
        b
    } else {
        usize::MAX as int
    }
}

/// Estimated size in bytes of the decoded audio of a track.
pub fn convert_track_duration_to_size(duration_ms: i32) -> (r: usize)
    ensures
        r == approximate_bytes(duration_ms),
{
    let secs: u64 = if duration_ms >= 1000 {
        (duration_ms as u32 / 1000) as u64
    } else {
        0
    };
    assert(secs * BYTES_PER_SECOND <= 2147483647 * 352800) by (nonlinear_arith)
        requires
            secs <= 2147483,
    ;
    let b: u64 = secs * BYTES_PER_SECOND;
    if b <= usize::MAX as u64 {
        b as usize
    } else {
        usize::MAX
    }
}

/// What the sample sink hands to the stream: a chunk of samples, or the end.
pub enum SinkEvent {
    Write { bytes: usize, total: usize, content: Vec<i32> },
    Finished,
}

/// `a + b`, capped at the largest `usize`.
pub open spec fn saturating_sum(a: int, b: int) -> int {
    if a + b <= usize::MAX {
        a + b
    } else {
        usize::MAX as int
    }
}

/// The samples widened to 32 bits.
pub open spec fn widened(s: Seq<i16>) -> Seq<i32> {
    Seq::new(s.len(), |i: int| s[i] as i32)
}

/// The accounting side of the sink that receives decoded audio: it widens
/// each chunk of samples and keeps the running byte count.
pub struct ChannelSink {
    bytes_total: usize,
    bytes_sent: usize,
}

impl ChannelSink {
    pub closed spec fn total(&self) -> usize {
        self.bytes_total
    }

    pub closed spec fn sent(&self) -> usize {
        self.bytes_sent
    }

    /// A sink for a track of the given duration, with nothing sent yet.
    pub fn new(duration_ms: i32) -> (r: ChannelSink)
        ensures
            r.total() == approximate_bytes(duration_ms),
            r.sent() == 0,
    {
        ChannelSink { bytes_total: convert_track_duration_to_size(duration_ms), bytes_sent: 0 }
    }

    /// The estimate of the track's size in bytes.
    pub fn get_approximate_size(&self) -> (r: usize)
        ensures
            r == self.total(),
    {
        self.bytes_total
    }

    /// Takes one chunk of 16-bit samples and returns the event that carries
    /// them, widened, with the bytes sent so far and the estimate.
    pub fn write(&mut self, samples: Vec<i16>) -> (r: SinkEvent)
        ensures
            final(self).total() == old(self).total(),
            final(self).sent() == saturating_sum(old(self).sent() as int, 4 * samples@.len() as int),
            r matches SinkEvent::Write { bytes, total, content } && bytes == final(self).sent()
                && total == old(self).total() && content@ == widened(samples@),
    {
        let mut content: Vec<i32> = Vec::new();
        let n = samples.len();
        for i in 0..n
            invariant
                n == samples@.len(),
                content@ == widened(samples@.take(i as int)),
        {
            content.push(samples[i] as i32);
            proof {
                assert(content@ =~= widened(samples@.take(i + 1)));
            }
        }
        proof {
            assert(samples@.take(n as int) =~= samples@);
        }
        let added: usize = if n <= usize::MAX / 4 {
            n * 4
        } else {
            usize::MAX
        };
        self.bytes_sent = if added <= usize::MAX - self.bytes_sent {
            self.bytes_sent + added
        } else {
            usize::MAX
        };
        SinkEvent::Write { bytes: self.bytes_sent, total: self.bytes_total, content }
    }

    /// Starts the count again for a new load attempt of the same track.
    pub fn restart(&mut self)
        ensures
            final(self).total() == old(self).total(),
            final(self).sent() == 0,
    {
        self.bytes_sent = 0;
    }

    /// The event that ends the stream.
    pub fn stop(&self) -> (r: SinkEvent)
        ensures
            r is Finished,
    {
        SinkEvent::Finished
    }
}

} // verus!
