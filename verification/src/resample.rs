//! The bookkeeping of sample-rate conversion: how many source frames went
//! in, how many output samples a stream of that length owes, and where the
//! decoder stands in milliseconds.
use vstd::prelude::*;

verus! {

/// Counters of one sample-rate conversion.
pub struct ResampleAccount {
    channels: u64,
    source_rate: u32,
    target_rate: u32,
    source_frames: u64,
    output_samples: u64,
}

/// The interleaved output samples that `source_frames` input frames owe:
/// the frames converted to the target rate (rounded down, kept to 64 bits as
/// the conversion does), times the channel count.
pub open spec fn owed_samples(source_frames: u64, source_rate: u32, target_rate: u32, channels: u64) -> int {
    (((source_frames * target_rate) / (source_rate as int)) % 0x1_0000_0000_0000_0000) * channels
}

impl ResampleAccount {
    /// Channels of the stream.
    pub closed spec fn channels(&self) -> u64 {
        self.channels
    }

    /// Source sample rate.
    pub closed spec fn source_rate(&self) -> u32 {
        self.source_rate
    }

    /// Target sample rate.
    pub closed spec fn target_rate(&self) -> u32 {
        self.target_rate
    }

    /// Source frames taken in so far.
    pub closed spec fn source_frames(&self) -> u64 {
        self.source_frames
    }

    /// Output samples handed out so far.
    pub closed spec fn output_samples(&self) -> u64 {
        self.output_samples
    }

    /// A conversion needs channels and two rates; `None` otherwise.
    pub fn new(channels: u64, source_rate: u32, target_rate: u32) -> (account: Option<Self>)
        ensures
            account is None <==> channels == 0 || source_rate == 0 || target_rate == 0,
            account matches Some(a) ==> a.channels() == channels && a.source_rate() == source_rate
                && a.target_rate() == target_rate && a.source_frames() == 0 && a.output_samples() == 0,
    {
        if channels == 0 || source_rate == 0 || target_rate == 0 {
            return None;
        }
        Some(ResampleAccount { channels, source_rate, target_rate, source_frames: 0, output_samples: 0 })
    }

    /// Whether `filled` interleaved samples are whole frames.
    pub fn whole_frames(&self, filled: usize) -> (whole: bool)
        requires
            self.channels() > 0,
        ensures
            whole == (filled as int % self.channels() as int == 0),
    {
        (filled as u64) % self.channels == 0
    }

    /// Takes in `frames` more source frames.
    pub fn record_input(&mut self, frames: u64)
        requires
            old(self).source_frames() + frames <= u64::MAX,
        ensures
            final(self).source_frames() == old(self).source_frames() + frames,
            final(self).output_samples() == old(self).output_samples(),
            final(self).channels() == old(self).channels(),
            final(self).source_rate() == old(self).source_rate(),
            final(self).target_rate() == old(self).target_rate(),
    {
        self.source_frames = self.source_frames + frames;
    }

    /// Whether `frames` more source frames can still be counted.
    pub fn has_input_room(&self, frames: u64) -> (room: bool)
        ensures
            room == (self.source_frames() + frames <= u64::MAX),
    {
        frames <= u64::MAX - self.source_frames
    }

    /// Whether the samples the stream owes so far can be counted: the
    /// source rate is set and their number fits in a `u64`.
    pub fn owed_fits(&self) -> (fits: bool)
        ensures
            fits == (self.source_rate() > 0 && owed_samples(self.source_frames(), self.source_rate(), self.target_rate(), self.channels()) <= u64::MAX),
    {
        if self.source_rate == 0 {
            return false;
        }
        let wide_frames = self.source_frames as u128;
        let wide_rate = self.target_rate as u128;
        assert(wide_frames * wide_rate <= u64::MAX as int * u32::MAX as int) by (nonlinear_arith)
            requires
                wide_frames <= u64::MAX,
                wide_rate <= u32::MAX,
        ;
        let frames = wide_frames * wide_rate / (self.source_rate as u128);
        let frames64 = (frames % 0x1_0000_0000_0000_0000u128) as u64;
        proof {
            assert(frames == (self.source_frames * self.target_rate) / (self.source_rate as int));
        }
        frames64.checked_mul(self.channels).is_some()
    }

    /// Of `produced` converted samples, how many to hand out: never more
    /// than the stream owes so far, so the output never runs ahead of the
    /// input's length at the target rate.
    pub fn admit_output(&mut self, produced: u64) -> (keep: u64)
        requires
            old(self).source_rate() > 0,
            owed_samples(old(self).source_frames(), old(self).source_rate(), old(self).target_rate(), old(self).channels()) <= u64::MAX,
        ensures
            ({
                let owed = owed_samples(old(self).source_frames(), old(self).source_rate(), old(self).target_rate(), old(self).channels());
                let remaining = if owed >= old(self).output_samples() {
                    owed - old(self).output_samples()
                } else {
                    0
                };
                &&& keep == if produced <= remaining {
                    produced as int
                } else {
                    remaining
                }
                &&& final(self).output_samples() == old(self).output_samples() + keep
            }),
            final(self).source_frames() == old(self).source_frames(),
            final(self).channels() == old(self).channels(),
            final(self).source_rate() == old(self).source_rate(),
            final(self).target_rate() == old(self).target_rate(),
    {
        let wide_frames = self.source_frames as u128;
        let wide_rate = self.target_rate as u128;
        assert(wide_frames * wide_rate <= u64::MAX as int * u32::MAX as int) by (nonlinear_arith)
            requires
                wide_frames <= u64::MAX,
                wide_rate <= u32::MAX,
        ;
        let frames = wide_frames * wide_rate / (self.source_rate as u128);
        let frames64 = (frames % 0x1_0000_0000_0000_0000u128) as u64;
        proof {
            assert(frames == (self.source_frames * self.target_rate) / (self.source_rate as int));
            assert(frames64 * self.channels == owed_samples(self.source_frames, self.source_rate, self.target_rate, self.channels));
        }
        let owed = frames64 * self.channels;
        let remaining = owed.saturating_sub(self.output_samples);
        let keep = if produced <= remaining {
            produced
        } else {
            remaining
        };
        self.output_samples = self.output_samples + keep;
        keep
    }

    /// The decoder position in milliseconds: source frames at the source
    /// rate, with the product held at `u64::MAX`.
    pub fn source_position_ms(&self) -> (ms: u64)
        ensures
            ms as int == (if self.source_rate() == 0 || self.channels() == 0 {
                0int
            } else if self.source_frames() * 1000 > u64::MAX {
                u64::MAX as int / (self.source_rate() as int)
            } else {
                (self.source_frames() * 1000) / (self.source_rate() as int)
            }),
    {
        if self.source_rate == 0 || self.channels == 0 {
            return 0;
        }
        crate::engine::saturating_mul(self.source_frames, 1000) / (self.source_rate as u64)
    }

    /// Starts over, as after a seek.
    pub fn reset(&mut self)
        ensures
            final(self).source_frames() == 0,
            final(self).output_samples() == 0,
            final(self).channels() == old(self).channels(),
            final(self).source_rate() == old(self).source_rate(),
            final(self).target_rate() == old(self).target_rate(),
    {
        self.source_frames = 0;
        self.output_samples = 0;
    }
}

/// The converter never hands out more than the input owes: after any
/// admission, the samples handed out stay within what the source frames
/// taken in so far owe at the target rate (or where they already were).
pub proof fn law_output_never_runs_ahead(output_samples: u64, owed: int, produced: u64)
    requires
        owed >= 0,
    ensures
        ({
            let remaining = if owed >= output_samples {
                owed - output_samples
            } else {
                0
            };
            let keep = if produced <= remaining {
                produced as int
            } else {
                remaining
            };
            &&& output_samples + keep <= if owed >= output_samples {
                owed
            } else {
                output_samples as int
            }
            &&& keep <= produced
        }),
{
}

} // verus!
