//! Analysis capture on the audio callback: which captured blocks are queued
//! for analysis, how they are numbered, and how losses are counted.
use vstd::prelude::*;

verus! {

/// Largest number of interleaved samples one captured block holds.
pub const MAX_ANALYSIS_CAPTURE_SAMPLES: usize = 8192;

/// Channel layout of a capture format.
#[derive(Clone, Copy, Debug, PartialEq, Eq, Structural)]
pub enum ChannelLayout {
    Mono,
    Stereo,
    MultiChannel(u16),
}

/// The layout a channel count stands for.
pub fn channel_layout(channels: u16) -> (layout: ChannelLayout)
    ensures
        layout == (if channels == 1 {
            ChannelLayout::Mono
        } else if channels == 2 {
            ChannelLayout::Stereo
        } else {
            ChannelLayout::MultiChannel(channels)
        }),
{
    match channels {
        1 => ChannelLayout::Mono,
        2 => ChannelLayout::Stereo,
        n => ChannelLayout::MultiChannel(n),
    }
}

/// Blocks and frames lost because the analysis queue was full.
#[derive(Clone, Copy, Debug, PartialEq, Eq, Structural)]
pub struct CaptureSaturation {
    pub dropped_blocks: u64,
    pub dropped_frames: u64,
}

/// What became of one capture attempt.
#[derive(Clone, Copy, Debug, PartialEq, Eq, Structural)]
pub enum CaptureResult {
    Captured,
    DroppedFull,
    InvalidBlock,
    ConsumerGone,
    Shutdown,
}

/// The identity of a block to queue: its generations, position, and order.
#[derive(Clone, Copy, Debug, PartialEq, Eq, Structural)]
pub struct BlockHeader {
    pub source_generation: u64,
    pub session_generation: u64,
    pub first_sample: u64,
    pub frame_count: u64,
    pub sequence: u64,
    pub discontinuity: bool,
}

/// The outcome of checking one capture attempt.
#[derive(Clone, Copy, Debug, PartialEq, Eq, Structural)]
pub enum CapturePlan {
    /// Nothing is queued, for this reason.
    Refused(CaptureResult),
    /// Queue a block under this header.
    Push(BlockHeader),
}

/// The abstract state of a capture producer.
pub struct CaptureState {
    pub channels: u16,
    pub next_sequence: u64,
    pub source_generation: u64,
    pub session_generation: u64,
    pub pending_discontinuity: bool,
    pub shutdown: bool,
    pub saturation: CaptureSaturation,
}

/// Successor of a 64-bit counter that wraps to zero after its maximum.
pub open spec fn wrap_inc(x: u64) -> u64 {
    if x == u64::MAX {
        0
    } else {
        (x + 1) as u64
    }
}

/// `x + n` on a 64-bit counter that wraps after its maximum.
pub open spec fn wrap_add(x: u64, n: u64) -> u64 {
    if x + n > u64::MAX {
        (x + n - u64::MAX - 1) as u64
    } else {
        (x + n) as u64
    }
}

/// A block is valid when it holds at least one and at most
/// `MAX_ANALYSIS_CAPTURE_SAMPLES` samples, whole frames only, all finite.
pub open spec fn valid_block(sample_count: usize, channels: u16, all_finite: bool) -> bool {
    &&& sample_count > 0
    &&& sample_count <= MAX_ANALYSIS_CAPTURE_SAMPLES
    &&& channels > 0
    &&& sample_count % (channels as usize) == 0
    &&& all_finite
}

/// The counters after one block of `frames` frames was lost.
pub open spec fn saturated(s: CaptureSaturation, frames: u64) -> CaptureSaturation {
    CaptureSaturation {
        dropped_blocks: wrap_inc(s.dropped_blocks),
        dropped_frames: wrap_add(s.dropped_frames, frames),
    }
}

/// One capture attempt, as a transition: the plan and the producer after it.
pub open spec fn prepare_step(
    s: CaptureState,
    first_sample: u64,
    sample_count: usize,
    all_finite: bool,
    discontinuity: bool,
    consumer_present: bool,
    queue_full: bool,
) -> (CaptureState, CapturePlan) {
    if s.shutdown {
        (s, CapturePlan::Refused(CaptureResult::Shutdown))
    } else if !consumer_present {
        (s, CapturePlan::Refused(CaptureResult::ConsumerGone))
    } else if !valid_block(sample_count, s.channels, all_finite) {
        (s, CapturePlan::Refused(CaptureResult::InvalidBlock))
    } else {
        let frames = (sample_count / (s.channels as usize)) as u64;
        let advanced = CaptureState { next_sequence: wrap_inc(s.next_sequence), ..s };
        if queue_full {
            (
                CaptureState {
                    saturation: saturated(s.saturation, frames),
                    pending_discontinuity: true,
                    ..advanced
                },
                CapturePlan::Refused(CaptureResult::DroppedFull),
            )
        } else {
            (
                advanced,
                CapturePlan::Push(
                    BlockHeader {
                        source_generation: s.source_generation,
                        session_generation: s.session_generation,
                        first_sample,
                        frame_count: frames,
                        sequence: s.next_sequence,
                        discontinuity: discontinuity || s.pending_discontinuity,
                    },
                ),
            )
        }
    }
}

/// Recording whether a planned block reached the queue, as a transition.
pub open spec fn finish_step(s: CaptureState, pushed: bool, frames: u64) -> (CaptureState, CaptureResult) {
    if pushed {
        (CaptureState { pending_discontinuity: false, ..s }, CaptureResult::Captured)
    } else {
        (
            CaptureState {
                saturation: saturated(s.saturation, frames),
                pending_discontinuity: true,
                ..s
            },
            CaptureResult::DroppedFull,
        )
    }
}

/// The producer side of an analysis capture channel.
pub struct CaptureProducerState {
    channels: u16,
    next_sequence: u64,
    source_generation: u64,
    session_generation: u64,
    pending_discontinuity: bool,
    shutdown: bool,
    saturation: CaptureSaturation,
}

impl View for CaptureProducerState {
    type V = CaptureState;

    closed spec fn view(&self) -> CaptureState {
        CaptureState {
            channels: self.channels,
            next_sequence: self.next_sequence,
            source_generation: self.source_generation,
            session_generation: self.session_generation,
            pending_discontinuity: self.pending_discontinuity,
            shutdown: self.shutdown,
            saturation: self.saturation,
        }
    }
}

impl CaptureProducerState {
    /// A producer for a format with `channels` interleaved channels.
    pub fn new(channels: u16) -> (producer: Self)
        ensures
            producer@ == (CaptureState {
                channels,
                next_sequence: 0,
                source_generation: 0,
                session_generation: 0,
                pending_discontinuity: false,
                shutdown: false,
                saturation: CaptureSaturation { dropped_blocks: 0, dropped_frames: 0 },
            }),
    {
        CaptureProducerState {
            channels,
            next_sequence: 0,
            source_generation: 0,
            session_generation: 0,
            pending_discontinuity: false,
            shutdown: false,
            saturation: CaptureSaturation { dropped_blocks: 0, dropped_frames: 0 },
        }
    }

    /// Checks one capture attempt of `sample_count` samples starting at frame
    /// `first_sample`. A valid block takes the next sequence number; when the
    /// queue is full it is counted as lost and the next queued block will be
    /// marked discontinuous.
    pub fn prepare(
        &mut self,
        first_sample: u64,
        sample_count: usize,
        all_finite: bool,
        discontinuity: bool,
        consumer_present: bool,
        queue_full: bool,
    ) -> (plan: CapturePlan)
        ensures
            (final(self)@, plan) == prepare_step(
                old(self)@,
                first_sample,
                sample_count,
                all_finite,
                discontinuity,
                consumer_present,
                queue_full,
            ),
            final(self)@.channels == old(self)@.channels,
            final(self)@.source_generation == old(self)@.source_generation,
            final(self)@.session_generation == old(self)@.session_generation,
            final(self)@.shutdown == old(self)@.shutdown,
            old(self)@.shutdown ==> plan == CapturePlan::Refused(CaptureResult::Shutdown)
                && final(self)@ == old(self)@,
            !old(self)@.shutdown && !consumer_present ==> plan == CapturePlan::Refused(
                CaptureResult::ConsumerGone,
            ) && final(self)@ == old(self)@,
            !old(self)@.shutdown && consumer_present && !valid_block(
                sample_count,
                old(self)@.channels,
                all_finite,
            ) ==> plan == CapturePlan::Refused(CaptureResult::InvalidBlock) && final(self)@
                == old(self)@,
            !old(self)@.shutdown && consumer_present && valid_block(
                sample_count,
                old(self)@.channels,
                all_finite,
            ) ==> {
                let frames = (sample_count / (old(self)@.channels as usize)) as u64;
                &&& final(self)@.next_sequence == wrap_inc(old(self)@.next_sequence)
                &&& queue_full ==> plan == CapturePlan::Refused(CaptureResult::DroppedFull)
                    && final(self)@.saturation == saturated(old(self)@.saturation, frames)
                    && final(self)@.pending_discontinuity
                &&& !queue_full ==> plan == CapturePlan::Push(
                    BlockHeader {
                        source_generation: old(self)@.source_generation,
                        session_generation: old(self)@.session_generation,
                        first_sample,
                        frame_count: frames,
                        sequence: old(self)@.next_sequence,
                        discontinuity: discontinuity || old(self)@.pending_discontinuity,
                    },
                ) && final(self)@.saturation == old(self)@.saturation
                    && final(self)@.pending_discontinuity == old(self)@.pending_discontinuity
            },
    {
        if self.shutdown {
            return CapturePlan::Refused(CaptureResult::Shutdown);
        }
        if !consumer_present {
            return CapturePlan::Refused(CaptureResult::ConsumerGone);
        }
        let channels = self.channels as usize;
        if sample_count == 0 || sample_count > MAX_ANALYSIS_CAPTURE_SAMPLES || channels == 0
            || sample_count % channels != 0 || !all_finite {
            return CapturePlan::Refused(CaptureResult::InvalidBlock);
        }
        let frame_count = (sample_count / channels) as u64;
        let sequence = self.next_sequence;
        self.next_sequence = self.next_sequence.wrapping_add(1);
        if queue_full {
            self.record_loss(frame_count);
            return CapturePlan::Refused(CaptureResult::DroppedFull);
        }
        CapturePlan::Push(
            BlockHeader {
                source_generation: self.source_generation,
                session_generation: self.session_generation,
                first_sample,
                frame_count,
                sequence,
                discontinuity: discontinuity || self.pending_discontinuity,
            },
        )
    }

    fn record_loss(&mut self, frames: u64)
        ensures
            final(self)@ == (CaptureState {
                saturation: saturated(old(self)@.saturation, frames),
                pending_discontinuity: true,
                ..old(self)@
            }),
    {
        self.saturation.dropped_blocks = self.saturation.dropped_blocks.wrapping_add(1);
        self.saturation.dropped_frames = self.saturation.dropped_frames.wrapping_add(frames);
        self.pending_discontinuity = true;
    }

    /// Records whether a planned block of `frames` frames made it into the
    /// queue: a lost one is counted and marks the next block discontinuous.
    pub fn finish(&mut self, pushed: bool, frames: u64) -> (result: CaptureResult)
        ensures
            (final(self)@, result) == finish_step(old(self)@, pushed, frames),
            pushed ==> result == CaptureResult::Captured && final(self)@ == (CaptureState {
                pending_discontinuity: false,
                ..old(self)@
            }),
            !pushed ==> result == CaptureResult::DroppedFull && final(self)@ == (CaptureState {
                saturation: saturated(old(self)@.saturation, frames),
                pending_discontinuity: true,
                ..old(self)@
            }),
    {
        if pushed {
            self.pending_discontinuity = false;
            CaptureResult::Captured
        } else {
            self.record_loss(frames);
            CaptureResult::DroppedFull
        }
    }

    /// Starts a new analysis session: sequence numbers restart.
    pub fn start_new_session(&mut self)
        ensures
            final(self)@ == (CaptureState {
                session_generation: wrap_inc(old(self)@.session_generation),
                next_sequence: 0,
                pending_discontinuity: false,
                ..old(self)@
            }),
    {
        self.session_generation = self.session_generation.wrapping_add(1);
        self.next_sequence = 0;
        self.pending_discontinuity = false;
    }

    /// Starts a new session at frame `first_sample`: its first block is
    /// discontinuous unless the session starts at the beginning.
    pub fn start_new_session_at(&mut self, first_sample: u64)
        ensures
            final(self)@ == (CaptureState {
                session_generation: wrap_inc(old(self)@.session_generation),
                next_sequence: 0,
                pending_discontinuity: first_sample > 0,
                ..old(self)@
            }),
    {
        self.start_new_session();
        self.pending_discontinuity = first_sample > 0;
    }

    /// Moves on to a new source: a new source and session, sequence numbers
    /// restart.
    pub fn rotate_source(&mut self)
        ensures
            final(self)@ == (CaptureState {
                source_generation: wrap_inc(old(self)@.source_generation),
                session_generation: wrap_inc(old(self)@.session_generation),
                next_sequence: 0,
                pending_discontinuity: false,
                ..old(self)@
            }),
    {
        self.source_generation = self.source_generation.wrapping_add(1);
        self.session_generation = self.session_generation.wrapping_add(1);
        self.next_sequence = 0;
        self.pending_discontinuity = false;
    }

    /// The loss counters.
    pub fn saturation(&self) -> (saturation: CaptureSaturation)
        ensures
            saturation == self@.saturation,
    {
        self.saturation
    }

    /// Stops capturing for good.
    pub fn shutdown(&mut self)
        ensures
            final(self)@ == (CaptureState { shutdown: true, ..old(self)@ }),
    {
        self.shutdown = true;
    }

    /// Whether capturing has stopped.
    pub fn is_shutdown(&self) -> (result: bool)
        ensures
            result == self@.shutdown,
    {
        self.shutdown
    }

    /// The number of interleaved channels.
    pub fn channels(&self) -> (channels: u16)
        ensures
            channels == self@.channels,
    {
        self.channels
    }
}

/// One chunk of a long capture: the samples `start..end` begin at frame
/// `first_sample` and carry the discontinuity only when first.
#[derive(Clone, Copy, Debug, PartialEq, Eq, Structural)]
pub struct CaptureChunk {
    pub start: usize,
    pub end: usize,
    pub first_sample: u64,
    pub discontinuity: bool,
}

/// The largest whole-frame chunk size that fits in one captured block.
pub open spec fn chunk_size_of(channels: usize) -> int {
    MAX_ANALYSIS_CAPTURE_SAMPLES - MAX_ANALYSIS_CAPTURE_SAMPLES % channels
}

/// The frame `base + offset`, saturating at `u64::MAX`.
pub open spec fn saturating_frame(base: u64, offset: int) -> u64 {
    if base + offset > u64::MAX {
        u64::MAX
    } else {
        (base + offset) as u64
    }
}

/// Cuts `sample_count` samples into chunks that each fit one block, as
/// `chunks` cuts a slice: all full except the last.
pub fn capture_chunks(sample_count: usize, channels: u16, first_sample: u64, discontinuity: bool) -> (chunks: Vec<CaptureChunk>)
    requires
        0 < channels <= MAX_ANALYSIS_CAPTURE_SAMPLES,
    ensures
        chunks@.len() == (sample_count + chunk_size_of(channels as usize) - 1) / chunk_size_of(
            channels as usize,
        ),
        forall|k: int|
            0 <= k < chunks@.len() ==> {
                let size = chunk_size_of(channels as usize);
                let c = #[trigger] chunks@[k];
                &&& c.start == k * size
                &&& c.end == if (k + 1) * size <= sample_count {
                    (k + 1) * size
                } else {
                    sample_count as int
                }
                &&& c.first_sample == saturating_frame(first_sample, (k * size) / (channels as int))
                &&& c.discontinuity == (discontinuity && k == 0)
            },
{
    let ch = channels as usize;
    assert(MAX_ANALYSIS_CAPTURE_SAMPLES % ch < ch);
    let size = MAX_ANALYSIS_CAPTURE_SAMPLES - MAX_ANALYSIS_CAPTURE_SAMPLES % ch;
    let mut chunks: Vec<CaptureChunk> = Vec::new();
    let mut start: usize = 0;
    let mut index: usize = 0;
    while start < sample_count
        invariant
            size == chunk_size_of(ch as int as usize),
            ch == channels as usize,
            ch > 0,
            size > 0,
            start == (if index * size <= sample_count {
                index * size
            } else {
                sample_count as int
            }),
            chunks@.len() == index,
            index > 0 ==> (index - 1) * size < sample_count,
            forall|k: int|
                0 <= k < chunks@.len() ==> {
                    let c = #[trigger] chunks@[k];
                    &&& c.start == k * size
                    &&& c.end == if (k + 1) * size <= sample_count {
                        (k + 1) * size
                    } else {
                        sample_count as int
                    }
                    &&& c.first_sample == saturating_frame(first_sample, (k * size) / (ch as int))
                    &&& c.discontinuity == (discontinuity && k == 0)
                },
        decreases sample_count - start,
    {
        let end = if size <= sample_count - start {
            start + size
        } else {
            sample_count
        };
        assert(index <= start) by (nonlinear_arith)
            requires
                start == index * size,
                size > 0,
        ;
        let offset = start / ch;
        let first = first_sample.saturating_add(offset as u64);
        chunks.push(
            CaptureChunk { start, end, first_sample: first, discontinuity: discontinuity && index == 0 },
        );
        proof {
            assert((index + 1) * size == index * size + size) by (nonlinear_arith);
        }
        start = end;
        index = index + 1;
    }
    proof {
        let n = index as int;
        let s = size as int;
        let total = sample_count as int;
        if n > 0 {
            assert((n - 1) * s < total) by {
                assert((n - 1) * s == n * s - s) by (nonlinear_arith);
            }
        }
        assert((total + s - 1) / s == n) by (nonlinear_arith)
            requires
                s > 0,
                n * s >= total,
                n > 0 ==> (n - 1) * s < total,
                n == 0 ==> total == 0,
                total >= 0,
        ;
    }
    chunks
}

/// Every valid block takes a sequence number, queued or lost, so the
/// consumer sees a gap in the numbers exactly where blocks were lost; and
/// the first block queued after a loss is marked discontinuous.
pub proof fn law_loss_is_visible_downstream(
    s: CaptureState,
    lost_frames: u64,
    first_sample: u64,
    sample_count: usize,
    discontinuity: bool,
)
    requires
        !s.shutdown,
        valid_block(sample_count, s.channels, true),
    ensures
        ({
            let (lost, _) = prepare_step(s, first_sample, sample_count, true, discontinuity, true, true);
            let (next, plan) = prepare_step(lost, first_sample, sample_count, true, discontinuity, true, false);
            &&& lost.next_sequence == wrap_inc(s.next_sequence)
            &&& lost.saturation.dropped_blocks == wrap_inc(s.saturation.dropped_blocks)
            &&& plan matches CapturePlan::Push(header) && header.discontinuity
                && header.sequence == wrap_inc(s.next_sequence)
            &&& next.next_sequence == wrap_inc(wrap_inc(s.next_sequence))
        }),
        ({
            let (after_loss, result) = finish_step(s, false, lost_frames);
            let (_, plan) = prepare_step(after_loss, first_sample, sample_count, true, discontinuity, true, false);
            &&& result == CaptureResult::DroppedFull
            &&& plan matches CapturePlan::Push(header) && header.discontinuity
        }),
{
}

/// A block that reached the queue clears the loss mark: the next block is
/// discontinuous only if its own caller says so.
pub proof fn law_delivery_clears_loss_mark(
    s: CaptureState,
    frames: u64,
    first_sample: u64,
    sample_count: usize,
    discontinuity: bool,
)
    requires
        !s.shutdown,
        valid_block(sample_count, s.channels, true),
    ensures
        ({
            let (delivered, result) = finish_step(s, true, frames);
            let (_, plan) = prepare_step(delivered, first_sample, sample_count, true, discontinuity, true, false);
            &&& result == CaptureResult::Captured
            &&& plan matches CapturePlan::Push(header) && header.discontinuity == discontinuity
        }),
{
}

} // verus!
