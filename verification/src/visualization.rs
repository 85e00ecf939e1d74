//! Visualization publishing: the decision a publisher makes for each frame,
//! and the assembler that cuts the playback callback's interleaved samples
//! into fixed-size frames with sequence numbers and start positions.
use vstd::prelude::*;

verus! {

/// What became of one publication.
#[derive(Clone, Copy, Debug, PartialEq, Eq, Structural)]
pub enum PublishResult {
    Published,
    DroppedFull,
    SubscriberGone,
    Shutdown,
}

/// The first step of a publication: refuse it at once, or try the queue.
#[derive(Clone, Copy, Debug, PartialEq, Eq, Structural)]
pub enum PublishStep {
    Refuse(PublishResult),
    Push,
}

/// A shut-down channel refuses with `Shutdown`, a channel whose subscriber
/// is gone with `SubscriberGone`; otherwise the frame goes to the queue.
pub fn publish_step(shutdown: bool, subscriber_present: bool) -> (step: PublishStep)
    ensures
        shutdown ==> step == PublishStep::Refuse(PublishResult::Shutdown),
        !shutdown && !subscriber_present ==> step == PublishStep::Refuse(PublishResult::SubscriberGone),
        !shutdown && subscriber_present ==> step == PublishStep::Push,
{
    if shutdown {
        PublishStep::Refuse(PublishResult::Shutdown)
    } else if !subscriber_present {
        PublishStep::Refuse(PublishResult::SubscriberGone)
    } else {
        PublishStep::Push
    }
}

/// The counter of dropped frames after one more drop: it wraps, as an
/// atomic `fetch_add` does.
pub open spec fn count_drop(dropped: u64) -> u64 {
    if dropped == u64::MAX {
        0
    } else {
        (dropped + 1) as u64
    }
}

/// Finishes a publication that went to the queue: a full queue drops the
/// incoming frame and counts it, so playback always wins.
pub fn finish_publish(dropped: &mut u64, pushed: bool) -> (result: PublishResult)
    ensures
        pushed ==> result == PublishResult::Published && *final(dropped) == *old(dropped),
        !pushed ==> result == PublishResult::DroppedFull && *final(dropped) == count_drop(*old(dropped)),
{
    if pushed {
        PublishResult::Published
    } else {
        *dropped = dropped.wrapping_add(1);
        PublishResult::DroppedFull
    }
}

/// One assembled frame.
pub struct TapFrame<T> {
    pub sequence: u64,
    pub position_frames: u64,
    pub sample_rate: u32,
    pub channels: u16,
    pub samples: Vec<T>,
}

/// The sum `a + b`, held at `u64::MAX`.
pub open spec fn saturating(a: u64, b: int) -> u64 {
    if a + b >= u64::MAX {
        u64::MAX
    } else {
        (a + b) as u64
    }
}

/// The sum `a + b` modulo 2^64.
pub open spec fn wrapping(a: u64, b: int) -> u64 {
    ((a + b) % 0x1_0000_0000_0000_0000) as u64
}

/// Cuts interleaved samples into frames of `samples_per_frame` values.
pub struct FrameAssembler<T> {
    sample_rate: u32,
    channels: u16,
    samples_per_frame: usize,
    pending_position_frames: u64,
    pending: Vec<T>,
    sequence: u64,
}

impl<T: Copy> FrameAssembler<T> {
    /// Values per frame.
    pub closed spec fn frame_len(&self) -> nat {
        self.samples_per_frame as nat
    }

    /// Channels per sample frame.
    pub closed spec fn channel_count(&self) -> nat {
        self.channels as nat
    }

    /// The sample rate frames carry.
    pub closed spec fn rate(&self) -> u32 {
        self.sample_rate
    }

    /// The values of the frame being filled.
    pub closed spec fn pending(&self) -> Seq<T> {
        self.pending@
    }

    /// The position of the first value of the frame being filled.
    pub closed spec fn pending_position(&self) -> u64 {
        self.pending_position_frames
    }

    /// The sequence number of the next frame.
    pub closed spec fn next_sequence(&self) -> u64 {
        self.sequence
    }

    /// The layout is usable and the frame being filled is not full.
    pub closed spec fn inv(&self) -> bool {
        &&& self.channels > 0
        &&& self.samples_per_frame > 0
        &&& self.pending@.len() < self.samples_per_frame
    }

    /// An empty assembler; `None` when a frame would hold no value or a
    /// sample frame no channel.
    pub fn new(sample_rate: u32, channels: u16, samples_per_frame: usize) -> (result: Option<Self>)
        ensures
            result is None <==> channels == 0 || samples_per_frame == 0,
            result matches Some(a) ==> {
                &&& a.inv()
                &&& a.rate() == sample_rate
                &&& a.channel_count() == channels
                &&& a.frame_len() == samples_per_frame
                &&& a.pending().len() == 0
                &&& a.next_sequence() == 0
                &&& a.pending_position() == 0
            },
    {
        if channels == 0 || samples_per_frame == 0 {
            return None;
        }
        Some(
            FrameAssembler {
                sample_rate,
                channels,
                samples_per_frame,
                pending_position_frames: 0,
                pending: Vec::new(),
                sequence: 0,
            },
        )
    }

    /// Where frame `j` of a capture starts: the pending frame keeps its
    /// position; a frame begun inside the new samples starts at
    /// `position_frames` plus the sample frames before it, held at `u64::MAX`.
    pub open spec fn start_position(
        old_pending_len: int,
        old_position: u64,
        position_frames: u64,
        channels: int,
        frame_len: int,
        j: int,
    ) -> u64 {
        if j * frame_len < old_pending_len {
            old_position
        } else {
            saturating(position_frames, (j * frame_len - old_pending_len) / channels)
        }
    }

    fn extend_pending(&mut self, samples: &[T], from: usize, to: usize)
        requires
            from <= to <= samples@.len(),
        ensures
            final(self).pending@ == old(self).pending@ + samples@.subrange(from as int, to as int),
            final(self).sample_rate == old(self).sample_rate,
            final(self).channels == old(self).channels,
            final(self).samples_per_frame == old(self).samples_per_frame,
            final(self).pending_position_frames == old(self).pending_position_frames,
            final(self).sequence == old(self).sequence,
    {
        let mut i = from;
        while i < to
            invariant
                from <= i <= to <= samples@.len(),
                self.pending@ == old(self).pending@ + samples@.subrange(from as int, i as int),
                self.sample_rate == old(self).sample_rate,
                self.channels == old(self).channels,
                self.samples_per_frame == old(self).samples_per_frame,
                self.pending_position_frames == old(self).pending_position_frames,
                self.sequence == old(self).sequence,
            decreases to - i,
        {
            self.pending.push(samples[i]);
            i = i + 1;
            assert(self.pending@ == old(self).pending@ + samples@.subrange(from as int, i as int));
        }
    }

    /// Takes in the callback's interleaved samples. When their channel count
    /// is not the assembler's, the partial frame is discarded and nothing is
    /// produced. Otherwise the pending values followed by `samples` are cut
    /// into whole frames, which are returned in order with consecutive
    /// (wrapping) sequence numbers; what is left over stays pending.
    pub fn capture(&mut self, samples: &[T], position_frames: u64, output_channels: usize) -> (frames: Vec<TapFrame<T>>)
        requires
            old(self).inv(),
        ensures
            final(self).inv(),
            final(self).rate() == old(self).rate(),
            final(self).channel_count() == old(self).channel_count(),
            final(self).frame_len() == old(self).frame_len(),
            output_channels != old(self).channel_count() ==> {
                &&& frames@.len() == 0
                &&& final(self).pending().len() == 0
                &&& final(self).next_sequence() == old(self).next_sequence()
            },
            output_channels == old(self).channel_count() ==> {
                let stream = old(self).pending() + samples@;
                let n = old(self).frame_len() as int;
                let k = stream.len() as int / n;
                &&& frames@.len() == k
                &&& forall|j: int| 0 <= j < k ==> {
                    &&& (#[trigger] frames@[j]).samples@ == stream.subrange(j * n, j * n + n)
                    &&& frames@[j].sequence == wrapping(old(self).next_sequence(), j)
                    &&& frames@[j].sample_rate == old(self).rate()
                    &&& frames@[j].channels as nat == old(self).channel_count()
                    &&& frames@[j].position_frames == Self::start_position(
                        old(self).pending().len() as int,
                        old(self).pending_position(),
                        position_frames,
                        old(self).channel_count() as int,
                        n,
                        j,
                    )
                }
                &&& final(self).pending() == stream.subrange(k * n, stream.len() as int)
                &&& final(self).next_sequence() == wrapping(old(self).next_sequence(), k)
                &&& final(self).pending().len() > 0 ==> final(self).pending_position() == Self::start_position(
                    old(self).pending().len() as int,
                    old(self).pending_position(),
                    position_frames,
                    old(self).channel_count() as int,
                    n,
                    k,
                )
            },
    {
        let channels = self.channels as usize;
        let mut frames: Vec<TapFrame<T>> = Vec::new();
        if output_channels != channels {
            self.pending.clear();
            return frames;
        }
        let ghost p = self.pending@.len() as int;
        let ghost stream = self.pending@ + samples@;
        let ghost n = self.samples_per_frame as int;
        let ghost old_position = self.pending_position_frames;
        let ghost old_sequence = self.sequence;
        let ghost ch = channels as int;
        let mut consumed: usize = 0;
        while consumed < samples.len()
            invariant
                self.inv(),
                channels == self.channels as usize,
                self.sample_rate == old(self).sample_rate,
                self.channels == old(self).channels,
                self.samples_per_frame == old(self).samples_per_frame,
                n == self.samples_per_frame,
                ch == channels,
                p == old(self).pending@.len(),
                p < n,
                stream == old(self).pending@ + samples@,
                consumed <= samples@.len(),
                frames@.len() * n + self.pending@.len() == p + consumed,
                self.pending@ == stream.subrange(frames@.len() * n, p + consumed),
                self.sequence == wrapping(old_sequence, frames@.len() as int),
                self.pending@.len() > 0 ==> self.pending_position_frames == Self::start_position(p, old_position, position_frames, ch, n, frames@.len() as int),
                consumed == 0 ==> self.pending_position_frames == old_position,
                forall|j: int| 0 <= j < frames@.len() ==> {
                    &&& (#[trigger] frames@[j]).samples@ == stream.subrange(j * n, j * n + n)
                    &&& frames@[j].sequence == wrapping(old_sequence, j)
                    &&& frames@[j].sample_rate == self.sample_rate
                    &&& frames@[j].channels == self.channels
                    &&& frames@[j].position_frames == Self::start_position(p, old_position, position_frames, ch, n, j)
                },
            decreases samples@.len() - consumed,
        {
            let ghost f = frames@.len() as int;
            if self.pending.len() == 0 {
                let offset = (consumed / channels) as u64;
                self.pending_position_frames = position_frames.saturating_add(offset);
                proof {
                    assert(f * n == p + consumed);
                    if f * n < p {
                        assert(f == 0) by (nonlinear_arith)
                            requires f * n < p, p < n, f >= 0, n > 0;
                        assert(consumed == 0);
                    }
                }
            }
            let room = self.samples_per_frame - self.pending.len();
            let left = samples.len() - consumed;
            let copy_len = if room < left { room } else { left };
            self.extend_pending(samples, consumed, consumed + copy_len);
            consumed = consumed + copy_len;
            proof {
                assert(self.pending@ =~= stream.subrange(f * n, p + consumed));
            }
            if self.pending.len() == self.samples_per_frame {
                let mut full: Vec<T> = Vec::new();
                std::mem::swap(&mut full, &mut self.pending);
                let frame = TapFrame {
                    sequence: self.sequence,
                    position_frames: self.pending_position_frames,
                    sample_rate: self.sample_rate,
                    channels: self.channels,
                    samples: full,
                };
                frames.push(frame);
                self.sequence = self.sequence.wrapping_add(1);
                proof {
                    assert(f * n + n == (f + 1) * n) by (nonlinear_arith);
                    assert(wrapping(old_sequence, f + 1) == wrapping(wrapping(old_sequence, f), 1));
                    assert(self.pending@ =~= stream.subrange((f + 1) * n, p + consumed));
                }
            }
        }
        proof {
            let k = frames@.len() as int;
            assert(stream.len() == p + samples@.len());
            assert(k == stream.len() as int / n) by (nonlinear_arith)
                requires k * n + self.pending@.len() == stream.len(), self.pending@.len() < n, n > 0, k >= 0;
        }
        frames
    }
}

} // verus!
