//! The producing side of playback: how much is read from the decoder, how
//! much of it reaches the ring buffer, and how an A-B loop region bounds and
//! restarts production.
//!
//! Samples themselves stay with the caller; this state keeps the counters and
//! decisions that govern them.
use vstd::prelude::*;

use crate::control::PlaybackControl;

verus! {

/// An A-B loop region in milliseconds, half-open: `start_ms <= t < end_ms`.
#[derive(Clone, Copy, Debug, PartialEq, Eq, Structural)]
pub struct LoopRegion {
    pub start_ms: u64,
    pub end_ms: u64,
}

/// `a * b` saturating at `u64::MAX`.
pub open spec fn sat_mul(a: u64, b: u64) -> u64 {
    if a * b > u64::MAX {
        u64::MAX
    } else {
        (a * b) as u64
    }
}

/// `a - b` saturating at zero.
pub open spec fn sat_sub(a: u64, b: u64) -> u64 {
    if a >= b {
        (a - b) as u64
    } else {
        0
    }
}

/// Milliseconds to frames at `sample_rate`, saturating.
pub open spec fn ms_to_frames(ms: u64, sample_rate: u32) -> u64 {
    (sat_mul(ms, sample_rate as u64) / 1000) as u64
}

/// The length of a region in interleaved samples; zero without a region or
/// without a sample rate.
pub open spec fn region_length_spec(region: Option<LoopRegion>, sample_rate: u32, channels: u64) -> u64 {
    match region {
        None => 0,
        Some(r) => if sample_rate == 0 {
            0
        } else {
            sat_mul(ms_to_frames(sat_sub(r.end_ms, r.start_ms), sample_rate), channels)
        },
    }
}

/// The start of a region in frames; zero without a region or sample rate.
pub open spec fn region_start_spec(region: Option<LoopRegion>, sample_rate: u32) -> u64 {
    match region {
        None => 0,
        Some(r) => if sample_rate == 0 {
            0
        } else {
            ms_to_frames(r.start_ms, sample_rate)
        },
    }
}

/// `a * b` saturating at `u64::MAX`.
pub fn saturating_mul(a: u64, b: u64) -> (result: u64)
    ensures
        result == sat_mul(a, b),
{
    a.checked_mul(b).unwrap_or(u64::MAX)
}

/// The length of a region in interleaved samples.
pub fn region_length_samples(region: Option<LoopRegion>, sample_rate: u32, channels: u64) -> (result: u64)
    ensures
        result == region_length_spec(region, sample_rate, channels),
{
    match region {
        None => 0,
        Some(r) => {
            if sample_rate == 0 {
                return 0;
            }
            let length_ms = r.end_ms.saturating_sub(r.start_ms);
            let frames = saturating_mul(length_ms, sample_rate as u64) / 1000;
            saturating_mul(frames, channels)
        },
    }
}

/// The start of a region in produced frames.
pub fn region_start_frames(region: Option<LoopRegion>, sample_rate: u32) -> (result: u64)
    ensures
        result == region_start_spec(region, sample_rate),
{
    match region {
        None => 0,
        Some(r) => {
            if sample_rate == 0 {
                return 0;
            }
            saturating_mul(r.start_ms, sample_rate as u64) / 1000
        },
    }
}

/// Whether a position lies inside the region (half-open `[A, B)`).
pub fn loop_region_contains_ms(region: Option<LoopRegion>, position_ms: u64) -> (result: bool)
    ensures
        result == (region matches Some(r) && r.start_ms <= position_ms && position_ms < r.end_ms),
{
    match region {
        Some(r) => r.start_ms <= position_ms && position_ms < r.end_ms,
        None => false,
    }
}

/// How a chunk of production begins.
#[derive(Clone, Copy, Debug, PartialEq, Eq, Structural)]
pub enum ChunkStart {
    /// No read this time; more may come when `true`.
    Finished(bool),
    /// Read at most this many samples from the decoder.
    Read(usize),
}

/// Why production failed.
#[derive(Clone, Copy, Debug, PartialEq, Eq, Structural)]
pub enum ProductionError {
    /// The decoder reported more samples than the buffer it was given holds.
    InvalidFrameCount { returned: usize, capacity: usize },
}

/// What one push of decoded samples did.
#[derive(Clone, Copy, Debug, PartialEq, Eq, Structural)]
pub struct PushOutcome {
    /// How many samples, from the front, entered the ring buffer.
    pub pushed: usize,
    /// The clock reset the first pushed sample carries.
    pub first_reset: Option<u64>,
}

/// The abstract state of the producer.
pub struct ProducerState {
    pub buffer_size: usize,
    pub eof: bool,
    pub sample_rate: u32,
    pub channels: u64,
    pub loop_region: Option<LoopRegion>,
    pub region_produced: u64,
    pub boundary_reached: bool,
    pub pending_reset: Option<u64>,
    pub decoder_position_ms: u64,
    pub cycle_produced: bool,
    pub pending_discard: Option<u64>,
    pub cache_len: usize,
    pub cache_overflowed: bool,
    pub cache_offset: usize,
    pub frames_written: u64,
}

/// The loop cache's replay position lies inside the cache while the cache
/// is usable.
pub open spec fn producer_wf(s: ProducerState) -> bool {
    !s.cache_overflowed ==> (s.cache_offset == 0 || s.cache_offset < s.cache_len)
}

/// Counters and decisions of a playback engine.
pub struct ProducerCounters {
    buffer_size: usize,
    eof: bool,
    sample_rate: u32,
    channels: u64,
    loop_region: Option<LoopRegion>,
    region_produced: u64,
    boundary_reached: bool,
    pending_reset: Option<u64>,
    decoder_position_ms: u64,
    cycle_produced: bool,
    pending_discard: Option<u64>,
    cache_len: usize,
    cache_overflowed: bool,
    cache_offset: usize,
    frames_written: u64,
}

impl View for ProducerCounters {
    type V = ProducerState;

    closed spec fn view(&self) -> ProducerState {
        ProducerState {
            buffer_size: self.buffer_size,
            eof: self.eof,
            sample_rate: self.sample_rate,
            channels: self.channels,
            loop_region: self.loop_region,
            region_produced: self.region_produced,
            boundary_reached: self.boundary_reached,
            pending_reset: self.pending_reset,
            decoder_position_ms: self.decoder_position_ms,
            cycle_produced: self.cycle_produced,
            pending_discard: self.pending_discard,
            cache_len: self.cache_len,
            cache_overflowed: self.cache_overflowed,
            cache_offset: self.cache_offset,
            frames_written: self.frames_written,
        }
    }
}

/// How many of `n` offered samples a push admits: none once the region
/// boundary was reached; otherwise as many as fit in the ring buffer and,
/// with a region, in what is left of it.
pub open spec fn admitted(s: ProducerState, n: usize, vacant: usize) -> usize {
    if s.boundary_reached {
        0
    } else {
        let fit = if n <= vacant {
            n
        } else {
            vacant
        };
        if s.loop_region is Some {
            let room = sat_sub(region_length_spec(s.loop_region, s.sample_rate, s.channels), s.region_produced);
            if (fit as u64) <= room {
                fit
            } else {
                room as usize
            }
        } else {
            fit
        }
    }
}

/// What a push of `n` offered samples reports: how many entered, and the
/// clock reset the first of them carries.
pub open spec fn push_outcome(s: ProducerState, n: usize, vacant: usize) -> PushOutcome {
    let k = admitted(s, n, vacant);
    PushOutcome {
        pushed: k,
        first_reset: if k > 0 {
            s.pending_reset
        } else {
            None
        },
    }
}

/// The producer after a push of `n` offered samples: region progress, the
/// boundary, the pending clock reset, the written count and the cycle cache
/// account for the admitted ones.
pub open spec fn push_state(s: ProducerState, n: usize, vacant: usize) -> ProducerState {
    let k = admitted(s, n, vacant);
    let region_len = region_length_spec(s.loop_region, s.sample_rate, s.channels);
    let produced = if s.loop_region is Some {
        (s.region_produced + k) as u64
    } else {
        s.region_produced
    };
    let (cache_len, cache_overflowed) = cached(s.cache_len, s.cache_overflowed, k, s.buffer_size);
    ProducerState {
        region_produced: produced,
        boundary_reached: s.boundary_reached || (s.loop_region is Some && n > 0 && produced >= region_len),
        pending_reset: if k > 0 {
            None
        } else {
            s.pending_reset
        },
        frames_written: (s.frames_written + k) as u64,
        cache_len,
        cache_overflowed,
        ..s
    }
}

/// What the worker does once production stopped.
#[derive(Clone, Copy, Debug, PartialEq, Eq, Structural)]
pub enum EofAction {
    /// Replay the cached region or file cycle.
    ReplayCycle,
    /// Nothing was produced in a whole cycle: fail with no frames.
    FailNoFrames,
    /// Seek the decoder back to the region start.
    RestartRegion,
    /// Seek the decoder back to the start of the file.
    RestartCurrent,
    /// Wait for the callback to drain the buffer.
    Yield,
    /// Claim natural completion.
    Complete,
    /// Wait for the next command.
    AwaitCommand,
}

/// The worker's decision at end of production: a region boundary loops
/// the region, loop mode loops the file once the buffer drained, one-shot
/// completes once the buffer drained.
pub open spec fn eof_action_spec(s: ProducerState, loop_current: bool, occupied: usize) -> EofAction {
    let cached_cycle = s.cache_len > 0 && !s.cache_overflowed;
    let finished = s.eof && occupied == 0;
    if s.loop_region is Some && !s.eof {
        if cached_cycle {
            EofAction::ReplayCycle
        } else if !s.cycle_produced {
            EofAction::FailNoFrames
        } else {
            EofAction::RestartRegion
        }
    } else if loop_current {
        if cached_cycle {
            EofAction::ReplayCycle
        } else if finished {
            if !s.cycle_produced {
                EofAction::FailNoFrames
            } else {
                EofAction::RestartCurrent
            }
        } else {
            EofAction::Yield
        }
    } else if finished {
        EofAction::Complete
    } else {
        EofAction::AwaitCommand
    }
}

/// How many samples one read may take: what fits in the ring buffer, and
/// with a region at most what is left of it.
pub open spec fn read_cap_spec(s: ProducerState, vacant: usize) -> usize {
    let capacity = if s.buffer_size <= vacant {
        s.buffer_size
    } else {
        vacant
    };
    if s.loop_region is Some {
        let remaining = sat_sub(region_length_spec(s.loop_region, s.sample_rate, s.channels), s.region_produced);
        if (capacity as u64) <= remaining {
            capacity
        } else {
            remaining as usize
        }
    } else {
        capacity
    }
}

/// The loop cache after `k` more samples were produced: it overflows once it
/// would exceed the ring buffer.
pub open spec fn cached(len: usize, overflowed: bool, k: usize, buffer_size: usize) -> (usize, bool) {
    if overflowed || k == 0 {
        (len, overflowed)
    } else if len + k > buffer_size {
        (0, true)
    } else {
        ((len + k) as usize, false)
    }
}

impl ProducerCounters {
    /// A producer with a ring buffer of `buffer_frames` samples.
    pub fn new(buffer_frames: usize, sample_rate: u32, channels: u64) -> (counters: Self)
        requires
            buffer_frames > 0,
        ensures
            producer_wf(counters@),
            counters@ == (ProducerState {
                buffer_size: buffer_frames,
                eof: false,
                sample_rate,
                channels,
                loop_region: None,
                region_produced: 0,
                boundary_reached: false,
                pending_reset: None,
                decoder_position_ms: 0,
                cycle_produced: false,
                pending_discard: None,
                cache_len: 0,
                cache_overflowed: false,
                cache_offset: 0,
                frames_written: 0,
            }),
    {
        ProducerCounters {
            buffer_size: buffer_frames,
            eof: false,
            sample_rate,
            channels,
            loop_region: None,
            region_produced: 0,
            boundary_reached: false,
            pending_reset: None,
            decoder_position_ms: 0,
            cycle_produced: false,
            pending_discard: None,
            cache_len: 0,
            cache_overflowed: false,
            cache_offset: 0,
            frames_written: 0,
        }
    }

    /// Pushes up to `n` decoded samples into a ring buffer with `vacant`
    /// free slots, honoring the region boundary; returns how many entered and
    /// the clock reset the first of them carries.
    pub fn push_buffered(&mut self, n: usize, vacant: usize) -> (outcome: PushOutcome)
        requires
            producer_wf(old(self)@),
            old(self)@.frames_written + n <= u64::MAX,
        ensures
            producer_wf(final(self)@),
            outcome == push_outcome(old(self)@, n, vacant),
            final(self)@ == push_state(old(self)@, n, vacant),
    {
        if self.boundary_reached {
            return PushOutcome { pushed: 0, first_reset: None };
        }
        let fit = if n <= vacant {
            n
        } else {
            vacant
        };
        let region_len = region_length_samples(self.loop_region, self.sample_rate, self.channels);
        let k = if self.loop_region.is_some() {
            let room = region_len.saturating_sub(self.region_produced);
            if (fit as u64) <= room {
                fit
            } else {
                room as usize
            }
        } else {
            fit
        };
        let first_reset = if k > 0 {
            self.pending_reset
        } else {
            None
        };
        if k > 0 {
            self.pending_reset = None;
        }
        self.frames_written = self.frames_written + k as u64;
        if self.loop_region.is_some() {
            self.region_produced = self.region_produced + k as u64;
            if n > 0 && self.region_produced >= region_len {
                self.boundary_reached = true;
            }
        }
        self.cache_samples(k);
        PushOutcome { pushed: k, first_reset }
    }


    /// Begins one production chunk: nothing more after end of file or at the
    /// region boundary; wait while a requested buffer discard is not yet
    /// acknowledged or while resampled samples are still pending or the ring
    /// buffer is full; otherwise read at most what fits, capped at the rest
    /// of the region.
    pub fn begin_chunk(&mut self, control: &PlaybackControl, pending_empty: bool, vacant: usize) -> (start: ChunkStart)
        requires
            producer_wf(old(self)@),
        ensures
            producer_wf(final(self)@),
            ({
                let s = old(self)@;
                if s.eof || s.boundary_reached {
                    start == ChunkStart::Finished(false) && final(self)@ == s
                } else if s.pending_discard matches Some(r) && control@.discard_ack < r {
                    start == ChunkStart::Finished(true) && final(self)@ == s
                } else {
                    let s1 = ProducerState { pending_discard: None, ..s };
                    &&& final(self)@ == s1
                    &&& if !pending_empty || vacant == 0 {
                        start == ChunkStart::Finished(true)
                    } else {
                        start == ChunkStart::Read(read_cap_spec(s, vacant))
                    }
                }
            }),
    {
        if self.eof || self.boundary_reached {
            return ChunkStart::Finished(false);
        }
        if let Some(request) = self.pending_discard {
            if !control.buffer_discarded(request) {
                return ChunkStart::Finished(true);
            }
        }
        self.pending_discard = None;
        if !pending_empty || vacant == 0 {
            return ChunkStart::Finished(true);
        }
        ChunkStart::Read(self.read_cap(vacant))
    }

    /// How many samples to read: what fits in the ring buffer, and with a
    /// region at most what is left of it.
    pub fn read_cap(&self, vacant: usize) -> (cap: usize)
        ensures
            cap == read_cap_spec(self@, vacant),
    {
        let capacity = if self.buffer_size <= vacant {
            self.buffer_size
        } else {
            vacant
        };
        if self.loop_region.is_some() {
            let remaining = region_length_samples(self.loop_region, self.sample_rate, self.channels).saturating_sub(self.region_produced);
            if (capacity as u64) <= remaining {
                capacity
            } else {
                remaining as usize
            }
        } else {
            capacity
        }
    }

    /// Finishes a chunk after the decoder returned `frames` samples into a
    /// buffer of `capacity`: more than the buffer holds is an error; none is
    /// end of file; otherwise the decoder clock advances, the samples are
    /// pushed, and production continues unless the region boundary was hit.
    pub fn finish_chunk(&mut self, frames: usize, capacity: usize, vacant: usize) -> (result: Result<(bool, PushOutcome), ProductionError>)
        requires
            producer_wf(old(self)@),
            old(self)@.frames_written + frames <= u64::MAX,
            old(self)@.sample_rate != 0 ==> old(self)@.decoder_position_ms + sat_mul(frames as u64, 1000) / (old(self)@.sample_rate as u64) <= u64::MAX,
        ensures
            producer_wf(final(self)@),
            frames > capacity ==> result == Err::<(bool, PushOutcome), ProductionError>(ProductionError::InvalidFrameCount { returned: frames, capacity }) && final(self)@ == old(self)@,
            frames == 0 ==> result == Ok::<(bool, PushOutcome), ProductionError>((false, PushOutcome { pushed: 0, first_reset: None })) && final(self)@ == (ProducerState { eof: true, ..old(self)@ }),
            0 < frames <= capacity ==> {
                let s = old(self)@;
                let position = if s.sample_rate != 0 {
                    (s.decoder_position_ms + sat_mul(frames as u64, 1000) / (s.sample_rate as u64)) as u64
                } else {
                    s.decoder_position_ms
                };
                let s1 = ProducerState { decoder_position_ms: position, ..s };
                let outcome = push_outcome(s1, frames, vacant);
                &&& final(self)@ == (ProducerState {
                    cycle_produced: s.cycle_produced || outcome.pushed > 0,
                    ..push_state(s1, frames, vacant)
                })
                &&& result == Ok::<(bool, PushOutcome), ProductionError>((!final(self)@.boundary_reached, outcome))
            },
    {
        if frames > capacity {
            return Err(ProductionError::InvalidFrameCount { returned: frames, capacity });
        }
        if frames == 0 {
            self.eof = true;
            return Ok((false, PushOutcome { pushed: 0, first_reset: None }));
        }
        if self.sample_rate != 0 {
            self.decoder_position_ms = self.decoder_position_ms + saturating_mul(frames as u64, 1000) / (self.sample_rate as u64);
        }
        let outcome = self.push_buffered(frames, vacant);
        if outcome.pushed > 0 {
            self.cycle_produced = true;
        }
        Ok((!self.boundary_reached, outcome))
    }

    /// Activates a region: the buffer is to be discarded (the request number
    /// is given), production restarts at the region start, the cycle cache
    /// empties.
    pub fn commit_loop_region(&mut self, region: LoopRegion, discard_request: u64)
        requires
            producer_wf(old(self)@),
        ensures
            producer_wf(final(self)@),
            final(self)@ == (ProducerState {
                pending_discard: Some(discard_request),
                loop_region: Some(region),
                region_produced: 0,
                boundary_reached: false,
                cycle_produced: false,
                cache_len: 0,
                cache_overflowed: false,
                cache_offset: 0,
                eof: false,
                ..old(self)@
            }),
    {
        self.pending_discard = Some(discard_request);
        self.loop_region = Some(region);
        self.region_produced = 0;
        self.boundary_reached = false;
        self.cycle_produced = false;
        self.cache_len = 0;
        self.cache_overflowed = false;
        self.cache_offset = 0;
        self.eof = false;
    }

    /// Whether activating `region` can skip the positioning seek: the region
    /// starts at zero and the decoder has not moved.
    pub fn region_needs_no_seek(&self, region: LoopRegion) -> (result: bool)
        ensures
            result == (region.start_ms == 0 && self@.decoder_position_ms == 0),
    {
        region.start_ms == 0 && self.decoder_position_ms == 0
    }

    /// Where the decoder stands, in milliseconds.
    pub fn decoder_position_ms(&self) -> (result: u64)
        ensures
            result == self@.decoder_position_ms,
    {
        self.decoder_position_ms
    }

    /// The active loop region, if any.
    pub fn loop_region(&self) -> (result: Option<LoopRegion>)
        ensures
            result == self@.loop_region,
    {
        self.loop_region
    }

    /// The sample rate the region bounds are converted with.
    pub fn sample_rate(&self) -> (result: u32)
        ensures
            result == self@.sample_rate,
    {
        self.sample_rate
    }

    /// Records the decoder position after a successful seek.
    pub fn set_decoder_position(&mut self, position_ms: u64)
        requires
            producer_wf(old(self)@),
        ensures
            producer_wf(final(self)@),
            final(self)@ == (ProducerState { decoder_position_ms: position_ms, ..old(self)@ }),
    {
        self.decoder_position_ms = position_ms;
    }

    /// Deactivates the region without repositioning the decoder.
    pub fn clear_loop_region(&mut self)
        requires
            producer_wf(old(self)@),
        ensures
            producer_wf(final(self)@),
            final(self)@ == (ProducerState {
                loop_region: None,
                region_produced: 0,
                boundary_reached: false,
                ..old(self)@
            }),
    {
        self.loop_region = None;
        self.region_produced = 0;
        self.boundary_reached = false;
    }

    /// Rebases region progress after a user seek inside the region: progress
    /// becomes the distance from the region start; the cycle cache is given
    /// up so the next wrap returns to the true start.
    pub fn rebase_loop_region(&mut self, seek_position_ms: u64)
        requires
            producer_wf(old(self)@),
        ensures
            producer_wf(final(self)@),
            old(self)@.loop_region is None ==> final(self)@ == old(self)@,
            old(self)@.loop_region matches Some(r) ==> final(self)@ == (ProducerState {
                region_produced: sat_mul(
                    if old(self)@.sample_rate == 0 { 0 } else { ms_to_frames(sat_sub(seek_position_ms, r.start_ms), old(self)@.sample_rate) },
                    old(self)@.channels,
                ),
                boundary_reached: false,
                cache_len: 0,
                cache_overflowed: true,
                cache_offset: 0,
                ..old(self)@
            }),
    {
        let region = match self.loop_region {
            Some(r) => r,
            None => return,
        };
        let offset_ms = seek_position_ms.saturating_sub(region.start_ms);
        let frames = if self.sample_rate == 0 {
            0
        } else {
            saturating_mul(offset_ms, self.sample_rate as u64) / 1000
        };
        self.region_produced = saturating_mul(frames, self.channels);
        self.boundary_reached = false;
        self.cache_len = 0;
        self.cache_overflowed = true;
        self.cache_offset = 0;
    }

    /// After the decoder was sent back to the region start at `position_ms`:
    /// production restarts and the next sample resets the clock to the
    /// region start.
    pub fn restart_region(&mut self, position_ms: u64) -> (restarted: bool)
        requires
            producer_wf(old(self)@),
        ensures
            producer_wf(final(self)@),
            restarted == old(self)@.loop_region is Some,
            !restarted ==> final(self)@ == old(self)@,
            restarted ==> final(self)@ == (ProducerState {
                eof: false,
                cycle_produced: false,
                region_produced: 0,
                boundary_reached: false,
                decoder_position_ms: position_ms,
                pending_reset: Some(region_start_spec(old(self)@.loop_region, old(self)@.sample_rate)),
                ..old(self)@
            }),
    {
        if self.loop_region.is_none() {
            return false;
        }
        self.eof = false;
        self.cycle_produced = false;
        self.region_produced = 0;
        self.boundary_reached = false;
        self.decoder_position_ms = position_ms;
        self.pending_reset = Some(region_start_frames(self.loop_region, self.sample_rate));
        true
    }

    /// After the decoder was sent back to the beginning of the file.
    pub fn restart_current(&mut self)
        requires
            producer_wf(old(self)@),
        ensures
            producer_wf(final(self)@),
            final(self)@ == (ProducerState { eof: false, cycle_produced: false, ..old(self)@ }),
    {
        self.eof = false;
        self.cycle_produced = false;
    }

    /// Whether one whole region cycle is cached and can be replayed.
    pub fn has_cached_cycle(&self) -> (result: bool)
        ensures
            result == (self@.cache_len > 0 && !self@.cache_overflowed),
    {
        self.cache_len > 0 && !self.cache_overflowed
    }

    /// Replays the cached cycle into `vacant` free slots: returns, for each
    /// slot, the cache position it takes and the clock reset it carries (the
    /// region start, whenever the cycle begins again).
    pub fn replay_cached_cycle(&mut self, vacant: usize) -> (plan: Vec<(usize, Option<u64>)>)
        requires
            producer_wf(old(self)@),
            old(self)@.frames_written + vacant <= u64::MAX,
        ensures
            producer_wf(final(self)@),
            !(old(self)@.cache_len > 0 && !old(self)@.cache_overflowed) ==> plan@.len() == 0 && final(self)@ == old(self)@,
            old(self)@.cache_len > 0 && !old(self)@.cache_overflowed ==> {
                let s = old(self)@;
                &&& plan@.len() == vacant
                &&& forall|k: int| 0 <= k < vacant ==> {
                    let position = ((s.cache_offset + k) % (s.cache_len as int)) as usize;
                    &&& (#[trigger] plan@[k]).0 == position
                    &&& plan@[k].1 == (if position == 0 { Some(region_start_spec(s.loop_region, s.sample_rate)) } else { None })
                }
                &&& final(self)@ == (ProducerState {
                    cache_offset: ((s.cache_offset + vacant) % (s.cache_len as int)) as usize,
                    frames_written: (s.frames_written + vacant) as u64,
                    ..s
                })
            },
    {
        let mut plan: Vec<(usize, Option<u64>)> = Vec::new();
        if !self.has_cached_cycle() {
            return plan;
        }
        let ghost s = self@;
        let start = region_start_frames(self.loop_region, self.sample_rate);
        proof {
            vstd::arithmetic::div_mod::lemma_small_mod(s.cache_offset as nat, s.cache_len as nat);
        }
        let mut k: usize = 0;
        while k < vacant
            invariant
                k <= vacant,
                s.cache_len > 0,
                start == region_start_spec(s.loop_region, s.sample_rate),
                s.frames_written + vacant <= u64::MAX,
                plan@.len() == k,
                self@ == (ProducerState {
                    cache_offset: ((s.cache_offset + k) % (s.cache_len as int)) as usize,
                    frames_written: (s.frames_written + k) as u64,
                    ..s
                }),
                forall|j: int| 0 <= j < k ==> {
                    let position = ((s.cache_offset + j) % (s.cache_len as int)) as usize;
                    &&& (#[trigger] plan@[j]).0 == position
                    &&& plan@[j].1 == (if position == 0 { Some(start) } else { None })
                },
            decreases vacant - k,
        {
            let position = self.cache_offset;
            let reset = if position == 0 {
                Some(start)
            } else {
                None
            };
            plan.push((position, reset));
            proof {
                vstd::arithmetic::div_mod::lemma_add_mod_noop_right(
                    1,
                    s.cache_offset as int + k as int,
                    s.cache_len as int,
                );
                vstd::arithmetic::div_mod::lemma_mod_bound(
                    s.cache_offset as int + k as int,
                    s.cache_len as int,
                );
            }
            self.cache_offset = (self.cache_offset + 1) % self.cache_len;
            self.frames_written = self.frames_written + 1;
            k = k + 1;
        }
        plan
    }

    /// Whether decoding ended and the callback consumed everything.
    pub fn is_finished(&self, occupied: usize) -> (result: bool)
        ensures
            result == (self@.eof && occupied == 0),
    {
        self.eof && occupied == 0
    }

    /// Whether production waits for the callback to acknowledge a discard.
    pub fn is_waiting_for_buffer_discard(&self, control: &PlaybackControl) -> (result: bool)
        ensures
            result == (self@.pending_discard matches Some(r) && control@.discard_ack < r),
    {
        match self.pending_discard {
            Some(request) => !control.buffer_discarded(request),
            None => false,
        }
    }

    /// The total number of samples written to the ring buffer.
    pub fn frames_written(&self) -> (result: u64)
        ensures
            result == self@.frames_written,
    {
        self.frames_written
    }


    /// Pushes the next resampled sample waiting on the worker; a pushed one
    /// counts as produced in this cycle.
    pub fn push_resampled(&mut self, vacant: usize) -> (outcome: PushOutcome)
        requires
            producer_wf(old(self)@),
            old(self)@.frames_written < u64::MAX,
        ensures
            producer_wf(final(self)@),
            outcome == push_outcome(old(self)@, 1, vacant),
            final(self)@ == (ProducerState {
                cycle_produced: old(self)@.cycle_produced || outcome.pushed > 0,
                ..push_state(old(self)@, 1, vacant)
            }),
    {
        let outcome = self.push_buffered(1, vacant);
        if outcome.pushed > 0 {
            self.cycle_produced = true;
        }
        outcome
    }

    /// Records the end of the decoded stream.
    pub fn mark_eof(&mut self)
        requires
            producer_wf(old(self)@),
        ensures
            producer_wf(final(self)@),
            final(self)@ == (ProducerState { eof: true, ..old(self)@ }),
    {
        self.eof = true;
    }

    /// Whether decoding reached the end of the file.
    pub fn is_eof(&self) -> (result: bool)
        ensures
            result == self@.eof,
    {
        self.eof
    }

    /// Whether production stopped at the region boundary.
    pub fn boundary_reached(&self) -> (result: bool)
        ensures
            result == self@.boundary_reached,
    {
        self.boundary_reached
    }

    /// How many samples the cycle cache holds.
    pub fn cache_len(&self) -> (result: usize)
        ensures
            result == self@.cache_len,
    {
        self.cache_len
    }

    /// After a user seek landed at `position_ms`: production resumes there
    /// with an empty cycle cache; a seek inside the active region keeps it and
    /// rebases its progress, a seek outside it disables the region.
    pub fn after_user_seek(&mut self, position_ms: u64)
        requires
            producer_wf(old(self)@),
        ensures
            producer_wf(final(self)@),
            ({
                let s1 = ProducerState {
                    eof: false,
                    cache_len: 0,
                    cache_overflowed: false,
                    cache_offset: 0,
                    decoder_position_ms: position_ms,
                    ..old(self)@
                };
                match old(self)@.loop_region {
                    None => final(self)@ == s1,
                    Some(r) => if r.start_ms <= position_ms && position_ms < r.end_ms {
                        final(self)@ == (ProducerState {
                            region_produced: sat_mul(
                                if s1.sample_rate == 0 { 0 } else { ms_to_frames(sat_sub(position_ms, r.start_ms), s1.sample_rate) },
                                s1.channels,
                            ),
                            boundary_reached: false,
                            cache_len: 0,
                            cache_overflowed: true,
                            cache_offset: 0,
                            ..s1
                        })
                    } else {
                        final(self)@ == (ProducerState {
                            loop_region: None,
                            region_produced: 0,
                            boundary_reached: false,
                            ..s1
                        })
                    },
                }
            }),
    {
        self.eof = false;
        self.cache_len = 0;
        self.cache_overflowed = false;
        self.cache_offset = 0;
        self.decoder_position_ms = position_ms;
        if self.loop_region.is_some() {
            if loop_region_contains_ms(self.loop_region, position_ms) {
                self.rebase_loop_region(position_ms);
            } else {
                self.clear_loop_region();
            }
        }
    }

    /// What the worker does once production stopped (end of file or region
    /// boundary).
    pub fn eof_action(&self, loop_current: bool, occupied: usize) -> (action: EofAction)
        ensures
            action == eof_action_spec(self@, loop_current, occupied),
    {
        if self.loop_region.is_some() && !self.eof {
            if self.has_cached_cycle() {
                return EofAction::ReplayCycle;
            }
            if !self.cycle_produced {
                return EofAction::FailNoFrames;
            }
            return EofAction::RestartRegion;
        }
        if loop_current {
            if self.has_cached_cycle() {
                return EofAction::ReplayCycle;
            }
            if self.is_finished(occupied) {
                if !self.cycle_produced {
                    return EofAction::FailNoFrames;
                }
                return EofAction::RestartCurrent;
            }
            return EofAction::Yield;
        }
        if self.is_finished(occupied) {
            EofAction::Complete
        } else {
            EofAction::AwaitCommand
        }
    }

    /// Accounts for `k` produced samples in the loop cache, which gives up
    /// once the cycle would no longer fit in the ring buffer.
    fn cache_samples(&mut self, k: usize)
        requires
            producer_wf(old(self)@),
        ensures
            producer_wf(final(self)@),
            ({
                let (len, overflowed) = cached(old(self)@.cache_len, old(self)@.cache_overflowed, k, old(self)@.buffer_size);
                final(self)@ == (ProducerState { cache_len: len, cache_overflowed: overflowed, ..old(self)@ })
            }),
    {
        if self.cache_overflowed || k == 0 {
            return;
        }
        if k > self.buffer_size || self.cache_len > self.buffer_size - k {
            self.cache_len = 0;
            self.cache_overflowed = true;
            return;
        }
        self.cache_len = self.cache_len + k;
    }
}

} // verus!

verus! {

/// A command the worker serves between chunks.
#[derive(Clone, Copy, Debug, PartialEq, Eq, Structural)]
pub enum WorkerCommandKind {
    Seek,
    SetMode(crate::commands::PlaybackMode),
    SetLoopRegion,
}

/// Whether production resumes after the worker served a command at the end
/// of the stream: after a seek that succeeded, a switch to looping the
/// current file, or any change of the loop region.
pub fn resumes_production(command: WorkerCommandKind, succeeded: bool) -> (resumes: bool)
    ensures
        resumes == match command {
            WorkerCommandKind::Seek => succeeded,
            WorkerCommandKind::SetMode(mode) => mode == crate::commands::PlaybackMode::LoopCurrent,
            WorkerCommandKind::SetLoopRegion => true,
        },
{
    match command {
        WorkerCommandKind::Seek => succeeded,
        WorkerCommandKind::SetMode(mode) => match mode {
            crate::commands::PlaybackMode::LoopCurrent => true,
            _ => false,
        },
        WorkerCommandKind::SetLoopRegion => true,
    }
}

/// What the worker does at end of production, by case. While a loop region
/// is active and the file has not ended, the worker stays inside the region:
/// it replays a usable cached cycle, fails when the cycle produced nothing,
/// and otherwise seeks back to the region start; it never restarts the whole
/// file, completes, yields or waits. Without a region, a file in loop mode
/// restarts only once it has ended and its buffer drained, and one-shot
/// playback completes exactly when the file ended and the buffer drained.
pub proof fn law_end_of_production(s: ProducerState, loop_current: bool, occupied: usize)
    ensures
        ({
            let action = eof_action_spec(s, loop_current, occupied);
            let usable_cache = s.cache_len > 0 && !s.cache_overflowed;
            &&& s.loop_region is Some && !s.eof ==> {
                &&& action == EofAction::ReplayCycle || action == EofAction::FailNoFrames
                    || action == EofAction::RestartRegion
                &&& usable_cache ==> action == EofAction::ReplayCycle
                &&& !usable_cache && !s.cycle_produced ==> action == EofAction::FailNoFrames
                &&& !usable_cache && s.cycle_produced ==> action == EofAction::RestartRegion
            }
            &&& !(s.loop_region is Some && !s.eof) && loop_current ==> {
                &&& usable_cache ==> action == EofAction::ReplayCycle
                &&& !usable_cache && !(s.eof && occupied == 0) ==> action == EofAction::Yield
                &&& !usable_cache && s.eof && occupied == 0 && s.cycle_produced ==> action
                    == EofAction::RestartCurrent
                &&& !usable_cache && s.eof && occupied == 0 && !s.cycle_produced ==> action
                    == EofAction::FailNoFrames
            }
            &&& !(s.loop_region is Some && !s.eof) && !loop_current ==> action == (if s.eof && occupied == 0 {
                EofAction::Complete
            } else {
                EofAction::AwaitCommand
            })
            &&& action == EofAction::RestartRegion ==> s.loop_region is Some && !s.eof && s.cycle_produced
            &&& action == EofAction::RestartCurrent ==> loop_current && s.eof && occupied == 0
                && s.cycle_produced && !usable_cache
            &&& action == EofAction::Complete <==> (!loop_current && s.eof && occupied == 0)
            &&& action == EofAction::FailNoFrames ==> !s.cycle_produced
            &&& action == EofAction::ReplayCycle ==> usable_cache
        }),
{
}

} // verus!
