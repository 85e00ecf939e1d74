//! Analysis execution lanes: a bounded input mailbox feeding a processor and
//! a bounded output mailbox, with a policy for what happens when either is
//! full.
//!
//! `Continuous` lanes never discard queued work: overflow is recorded as a
//! gap and marks every later result incomplete. `LatestOnly` lanes serve
//! visuals: overflow replaces the oldest entry and the worker skips stale
//! inputs.
use std::collections::VecDeque;

use vstd::prelude::*;

verus! {

/// What a lane does when one of its mailboxes is full.
#[derive(Clone, Copy, Debug, PartialEq, Eq, Structural)]
pub enum LanePolicy {
    Continuous,
    LatestOnly,
}

/// How far a lane result can be trusted.
#[derive(Clone, Copy, Debug, PartialEq, Eq, Structural)]
pub enum LaneValidity {
    Measured,
    Complete,
    Incomplete,
}

/// What became of one submitted block.
#[derive(Clone, Copy, Debug, PartialEq, Eq, Structural)]
pub enum SubmissionResult {
    Accepted,
    DroppedVisual,
    ContinuousGap,
    ReceiverGone,
    Shutdown,
}

/// Counters a lane exposes for diagnostics.
#[derive(Clone, Copy, Debug, PartialEq, Eq, Structural)]
pub struct LaneDiagnostics {
    pub input_depth: usize,
    pub input_high_water: usize,
    pub output_depth: usize,
    pub output_high_water: usize,
    pub visual_drops: u64,
    pub stale_visual_inputs: u64,
    pub continuous_gaps: u64,
    pub processor_panics: u64,
}

/// Why a lane could not be created or joined.
#[derive(Clone, Copy, Debug, PartialEq, Eq, Structural)]
pub enum LaneError {
    InvalidCapacity,
    WorkerStartFailed,
    WorkerPanicked,
}

/// Why a receive returned without a result.
#[derive(Clone, Copy, Debug, PartialEq, Eq, Structural)]
pub enum RecvTimeoutError {
    Timeout,
    Disconnected,
}

/// One processed result and how far it can be trusted.
#[derive(Debug)]
pub struct LaneOutput<T> {
    pub value: T,
    pub validity: LaneValidity,
}

/// What the worker does next.
pub enum InputStep<B> {
    /// Process this block.
    Block(B),
    /// Wait for the sender.
    Wait,
    /// The lane is shut down or nobody reads results: stop.
    Stop,
}

/// What a receiver gets when it asks for a result.
pub enum RecvStep<T> {
    Ready(LaneOutput<T>),
    Wait,
    Disconnected,
}

/// Successor of a 64-bit counter that wraps to zero after its maximum.
pub open spec fn wrap_inc(x: u64) -> u64 {
    if x == u64::MAX {
        0
    } else {
        (x + 1) as u64
    }
}

/// The larger of two depths.
pub open spec fn max_usize(a: usize, b: usize) -> usize {
    if a >= b {
        a
    } else {
        b
    }
}

/// The abstract state of a lane.
pub struct LaneView<B, T> {
    pub input: Seq<B>,
    pub output: Seq<LaneOutput<T>>,
    pub input_capacity: usize,
    pub output_capacity: usize,
    pub policy: LanePolicy,
    pub shutdown: bool,
    pub sender_connected: bool,
    pub receiver_connected: bool,
    pub incomplete: bool,
    pub previous_sequence: Option<u64>,
    pub diagnostics: LaneDiagnostics,
}

/// An analysis lane: the state its sender, worker, and receiver share.
pub struct AnalysisLane<B, T> {
    input: VecDeque<B>,
    output: VecDeque<LaneOutput<T>>,
    input_capacity: usize,
    output_capacity: usize,
    policy: LanePolicy,
    shutdown: bool,
    sender_connected: bool,
    receiver_connected: bool,
    incomplete: bool,
    previous_sequence: Option<u64>,
    diagnostics: LaneDiagnostics,
}

impl<B, T> View for AnalysisLane<B, T> {
    type V = LaneView<B, T>;

    closed spec fn view(&self) -> LaneView<B, T> {
        LaneView {
            input: self.input@,
            output: self.output@,
            input_capacity: self.input_capacity,
            output_capacity: self.output_capacity,
            policy: self.policy,
            shutdown: self.shutdown,
            sender_connected: self.sender_connected,
            receiver_connected: self.receiver_connected,
            incomplete: self.incomplete,
            previous_sequence: self.previous_sequence,
            diagnostics: self.diagnostics,
        }
    }
}

/// Both capacities are positive, neither mailbox holds more than its
/// capacity, and the reported depths and high-water marks stay within the
/// capacities.
pub open spec fn lane_wf<B, T>(v: LaneView<B, T>) -> bool {
    &&& v.input_capacity > 0
    &&& v.output_capacity > 0
    &&& v.input.len() <= v.input_capacity
    &&& v.output.len() <= v.output_capacity
    &&& v.diagnostics.input_depth <= v.input_capacity
    &&& v.diagnostics.input_high_water <= v.input_capacity
    &&& v.diagnostics.output_depth <= v.output_capacity
    &&& v.diagnostics.output_high_water <= v.output_capacity
}

/// Whether a 64-bit event counter went from `a` to `b` by counting events
/// (wrapping after its maximum): it never goes back.
pub open spec fn advanced(a: u64, b: u64) -> bool {
    exists|n: nat| b == #[trigger] add_wrapping(a, n)
}

/// Whether every event counter of `b` was reached from `a` by counting.
pub open spec fn counters_advanced(a: LaneDiagnostics, b: LaneDiagnostics) -> bool {
    &&& advanced(a.visual_drops, b.visual_drops)
    &&& advanced(a.stale_visual_inputs, b.stale_visual_inputs)
    &&& advanced(a.continuous_gaps, b.continuous_gaps)
    &&& advanced(a.processor_panics, b.processor_panics)
}

/// One call on a lane, as every method of [`AnalysisLane`] that changes it
/// ensures: a well-formed lane stays well formed, the capacities stay, and
/// the event counters only count on.
pub open spec fn lane_step<B, T>(before: LaneView<B, T>, after: LaneView<B, T>) -> bool {
    &&& lane_wf(before) ==> lane_wf(after)
    &&& after.input_capacity == before.input_capacity
    &&& after.output_capacity == before.output_capacity
    &&& counters_advanced(before.diagnostics, after.diagnostics)
}

proof fn lemma_add_wrapping_add(a: u64, n: nat, m: nat)
    ensures
        add_wrapping(add_wrapping(a, n), m) == add_wrapping(a, n + m),
    decreases m,
{
    if m > 0 {
        lemma_add_wrapping_add(a, n, (m - 1) as nat);
        assert(add_wrapping(a, n + m) == wrap_inc(add_wrapping(a, (n + m - 1) as nat)));
    }
}

/// Counting on from a count reached by counting is counting.
pub proof fn lemma_advanced_trans(a: u64, b: u64, c: u64)
    requires
        advanced(a, b),
        advanced(b, c),
    ensures
        advanced(a, c),
{
    let n = choose|n: nat| b == #[trigger] add_wrapping(a, n);
    let m = choose|m: nat| c == #[trigger] add_wrapping(b, m);
    lemma_add_wrapping_add(a, n, m);
}

proof fn lemma_run_step<B, T>(states: Seq<LaneView<B, T>>, i: int, j: int)
    requires
        0 <= i <= j < states.len(),
        lane_wf(states[i]),
        forall|k: int| 0 <= k < states.len() - 1 ==> lane_step(#[trigger] states[k], states[k + 1]),
    ensures
        lane_wf(states[j]),
        states[j].input_capacity == states[i].input_capacity,
        states[j].output_capacity == states[i].output_capacity,
        counters_advanced(states[i].diagnostics, states[j].diagnostics),
    decreases j - i,
{
    if i == j {
        lemma_counters(states[i].diagnostics);
    } else {
        lemma_run_step(states, i, j - 1);
        assert(lane_step(states[j - 1], states[j]));
        let a = states[i].diagnostics;
        let b = states[j - 1].diagnostics;
        let c = states[j].diagnostics;
        lemma_advanced_trans(a.visual_drops, b.visual_drops, c.visual_drops);
        lemma_advanced_trans(a.stale_visual_inputs, b.stale_visual_inputs, c.stale_visual_inputs);
        lemma_advanced_trans(a.continuous_gaps, b.continuous_gaps, c.continuous_gaps);
        lemma_advanced_trans(a.processor_panics, b.processor_panics, c.processor_panics);
    }
}

/// A lane's diagnostics over any run of calls: every snapshot reports
/// depths and high-water marks within the capacities the lane was created
/// with, and between any two snapshots the drop, staleness, gap and panic
/// counters only count on (wrapping only past their maximum).
pub proof fn law_lane_run<B, T>(states: Seq<LaneView<B, T>>)
    requires
        states.len() > 0,
        lane_wf(states[0]),
        forall|k: int| 0 <= k < states.len() - 1 ==> lane_step(#[trigger] states[k], states[k + 1]),
    ensures
        forall|k: int|
            0 <= k < states.len() ==> {
                &&& (#[trigger] states[k]).diagnostics.input_depth <= states[0].input_capacity
                &&& states[k].diagnostics.input_high_water <= states[0].input_capacity
                &&& states[k].diagnostics.output_depth <= states[0].output_capacity
                &&& states[k].diagnostics.output_high_water <= states[0].output_capacity
            },
        forall|i: int, j: int|
            0 <= i <= j < states.len() ==> counters_advanced(
                (#[trigger] states[i]).diagnostics,
                (#[trigger] states[j]).diagnostics,
            ),
{
    assert forall|k: int| 0 <= k < states.len() implies {
        &&& (#[trigger] states[k]).diagnostics.input_depth <= states[0].input_capacity
        &&& states[k].diagnostics.input_high_water <= states[0].input_capacity
        &&& states[k].diagnostics.output_depth <= states[0].output_capacity
        &&& states[k].diagnostics.output_high_water <= states[0].output_capacity
    } by {
        lemma_run_step(states, 0, k);
    }
    assert forall|i: int, j: int| 0 <= i <= j < states.len() implies counters_advanced(
        (#[trigger] states[i]).diagnostics,
        (#[trigger] states[j]).diagnostics,
    ) by {
        lemma_run_step(states, 0, i);
        lemma_run_step(states, i, j);
    }
}

/// Counting no events, or one, is counting.
pub proof fn lemma_advanced_by(a: u64, n: nat)
    ensures
        advanced(a, add_wrapping(a, n)),
        advanced(a, a),
        advanced(a, wrap_inc(a)),
{
    assert(add_wrapping(a, 0) == a);
    assert(add_wrapping(a, 1) == wrap_inc(add_wrapping(a, 0)));
}

/// Whatever a step does to the event counters of `d` by counting nothing,
/// one event, or `n` events, is counting.
pub proof fn lemma_counters(d: LaneDiagnostics)
    ensures
        advanced(d.visual_drops, d.visual_drops),
        advanced(d.visual_drops, wrap_inc(d.visual_drops)),
        advanced(d.stale_visual_inputs, d.stale_visual_inputs),
        advanced(d.stale_visual_inputs, wrap_inc(d.stale_visual_inputs)),
        forall|n: nat| advanced(d.stale_visual_inputs, #[trigger] add_wrapping(d.stale_visual_inputs, n)),
        advanced(d.continuous_gaps, d.continuous_gaps),
        advanced(d.continuous_gaps, wrap_inc(d.continuous_gaps)),
        advanced(d.processor_panics, d.processor_panics),
        advanced(d.processor_panics, wrap_inc(d.processor_panics)),
{
    lemma_advanced_by(d.visual_drops, 0);
    lemma_advanced_by(d.stale_visual_inputs, 0);
    lemma_advanced_by(d.continuous_gaps, 0);
    lemma_advanced_by(d.processor_panics, 0);
    assert forall|n: nat| advanced(d.stale_visual_inputs, #[trigger] add_wrapping(d.stale_visual_inputs, n)) by {
        lemma_advanced_by(d.stale_visual_inputs, n);
    }
}

/// Lanes report within their capacities: the depths and high-water marks
/// of a well-formed lane never exceed the capacity of their mailbox.
pub proof fn law_diagnostics_within_capacity<B, T>(v: LaneView<B, T>)
    requires
        lane_wf(v),
    ensures
        v.diagnostics.input_depth <= v.input_capacity,
        v.diagnostics.input_high_water <= v.input_capacity,
        v.diagnostics.output_depth <= v.output_capacity,
        v.diagnostics.output_high_water <= v.output_capacity,
{
}

/// The validity the worker gives its next result.
pub open spec fn validity_of(policy: LanePolicy, incomplete: bool) -> LaneValidity {
    match policy {
        LanePolicy::LatestOnly => LaneValidity::Measured,
        LanePolicy::Continuous => if incomplete {
            LaneValidity::Incomplete
        } else {
            LaneValidity::Complete
        },
    }
}

/// Whether a block breaks the continuity of a continuous lane: it is marked
/// discontinuous, or its sequence does not follow the previous one.
pub open spec fn breaks_continuity(
    previous: Option<u64>,
    sequence: u64,
    discontinuity: bool,
) -> bool {
    discontinuity || (previous matches Some(p) && sequence != wrap_inc(p))
}

/// What the worker's noting of block `sequence` does to a lane: the block
/// becomes the previous one, and a continuous lane whose continuity it
/// breaks is marked incomplete and counts one more gap; nothing else
/// changes.
pub open spec fn observe_step<B, T>(
    before: LaneView<B, T>,
    after: LaneView<B, T>,
    sequence: u64,
    discontinuity: bool,
) -> bool {
    &&& after.previous_sequence == Some(sequence)
    &&& after.input == before.input
    &&& after.output == before.output
    &&& after.policy == before.policy
    &&& after.input_capacity == before.input_capacity
    &&& after.output_capacity == before.output_capacity
    &&& after.shutdown == before.shutdown
    &&& after.sender_connected == before.sender_connected
    &&& after.receiver_connected == before.receiver_connected
    &&& if before.policy == LanePolicy::Continuous && breaks_continuity(
        before.previous_sequence,
        sequence,
        discontinuity,
    ) {
        &&& after.incomplete
        &&& after.diagnostics == (LaneDiagnostics {
            continuous_gaps: wrap_inc(before.diagnostics.continuous_gaps),
            ..before.diagnostics
        })
    } else {
        &&& after.incomplete == before.incomplete
        &&& after.diagnostics == before.diagnostics
    }
}

/// Continuity of a continuous lane, by the arithmetic of sequence numbers:
/// a block whose sequence is anything but the previous block's sequence
/// plus one (wrapping past the largest 64-bit value to zero), a repeated or
/// earlier one included, or a block marked discontinuous, makes the lane
/// incomplete and counts exactly one more gap; the direct successor of the
/// previous block, or the first block, not marked discontinuous, leaves
/// validity and every counter as they were. A latest-only lane never counts
/// a gap.
pub proof fn law_continuity_by_successor<B, T>(
    before: LaneView<B, T>,
    after: LaneView<B, T>,
    sequence: u64,
    discontinuity: bool,
)
    requires
        observe_step(before, after, sequence, discontinuity),
    ensures
        after.previous_sequence == Some(sequence),
        before.policy == LanePolicy::Continuous && (discontinuity || (before.previous_sequence matches Some(
            p,
        ) && sequence as int != (p as int + 1) % 0x1_0000_0000_0000_0000)) ==> {
            &&& after.incomplete
            &&& validity_of(after.policy, after.incomplete) == LaneValidity::Incomplete
            &&& after.diagnostics.continuous_gaps as int == (before.diagnostics.continuous_gaps as int + 1)
                % 0x1_0000_0000_0000_0000
            &&& after.diagnostics.visual_drops == before.diagnostics.visual_drops
            &&& after.diagnostics.processor_panics == before.diagnostics.processor_panics
        },
        !discontinuity && (before.previous_sequence is None || (before.previous_sequence matches Some(p)
            && sequence as int == (p as int + 1) % 0x1_0000_0000_0000_0000)) ==> after.incomplete
            == before.incomplete && after.diagnostics == before.diagnostics,
        before.policy == LanePolicy::LatestOnly ==> after.incomplete == before.incomplete && after.diagnostics
            == before.diagnostics,
{
}

impl<B, T> AnalysisLane<B, T> {
    /// Creates a lane; both capacities must be positive.
    pub fn new(input_capacity: usize, output_capacity: usize, policy: LanePolicy) -> (result:
        Result<Self, LaneError>)
        ensures
            (input_capacity == 0 || output_capacity == 0) <==> result is Err,
            result matches Err(e) ==> e == LaneError::InvalidCapacity,
            result matches Ok(lane) ==> {
                &&& lane_wf(lane@)
                &&& lane@.input.len() == 0
                &&& lane@.output.len() == 0
                &&& lane@.input_capacity == input_capacity
                &&& lane@.output_capacity == output_capacity
                &&& lane@.policy == policy
                &&& !lane@.shutdown
                &&& lane@.sender_connected
                &&& lane@.receiver_connected
                &&& !lane@.incomplete
                &&& lane@.previous_sequence is None
                &&& lane@.diagnostics == LaneDiagnostics::default_spec()
            },
    {
        if input_capacity == 0 || output_capacity == 0 {
            return Err(LaneError::InvalidCapacity);
        }
        Ok(AnalysisLane {
            input: VecDeque::with_capacity(input_capacity),
            output: VecDeque::with_capacity(output_capacity),
            input_capacity,
            output_capacity,
            policy,
            shutdown: false,
            sender_connected: true,
            receiver_connected: true,
            incomplete: false,
            previous_sequence: None,
            diagnostics: LaneDiagnostics::zero(),
        })
    }

    /// The lane's policy.
    pub fn policy(&self) -> (policy: LanePolicy)
        ensures
            policy == self@.policy,
    {
        self.policy
    }

    /// The sender's submission of one block; never waits.
    pub fn try_submit(&mut self, block: B) -> (result: SubmissionResult)
        requires
            lane_wf(old(self)@),
        ensures
            lane_step(old(self)@, final(self)@),
            lane_wf(final(self)@),
            final(self)@.output == old(self)@.output,
            final(self)@.policy == old(self)@.policy,
            final(self)@.input_capacity == old(self)@.input_capacity,
            final(self)@.output_capacity == old(self)@.output_capacity,
            final(self)@.shutdown == old(self)@.shutdown,
            final(self)@.sender_connected == old(self)@.sender_connected,
            final(self)@.receiver_connected == old(self)@.receiver_connected,
            final(self)@.previous_sequence == old(self)@.previous_sequence,
            old(self)@.shutdown ==> result == SubmissionResult::Shutdown && final(self)@
                == old(self)@,
            !old(self)@.shutdown && !old(self)@.receiver_connected ==> result
                == SubmissionResult::ReceiverGone && final(self)@ == old(self)@,
            !old(self)@.shutdown && old(self)@.receiver_connected && old(self)@.input.len()
                < old(self)@.input_capacity ==> {
                &&& result == SubmissionResult::Accepted
                &&& final(self)@.input == old(self)@.input.push(block)
                &&& final(self)@.incomplete == old(self)@.incomplete
                &&& final(self)@.diagnostics == (LaneDiagnostics {
                    input_depth: final(self)@.input.len() as usize,
                    input_high_water: max_usize(
                        old(self)@.diagnostics.input_high_water,
                        final(self)@.input.len() as usize,
                    ),
                    ..old(self)@.diagnostics
                })
            },
            !old(self)@.shutdown && old(self)@.receiver_connected && old(self)@.input.len()
                == old(self)@.input_capacity && old(self)@.policy == LanePolicy::LatestOnly ==> {
                &&& result == SubmissionResult::DroppedVisual
                &&& final(self)@.input == old(self)@.input.drop_first().push(block)
                &&& final(self)@.incomplete == old(self)@.incomplete
                &&& final(self)@.diagnostics == (LaneDiagnostics {
                    visual_drops: wrap_inc(old(self)@.diagnostics.visual_drops),
                    ..old(self)@.diagnostics
                })
            },
            !old(self)@.shutdown && old(self)@.receiver_connected && old(self)@.input.len()
                == old(self)@.input_capacity && old(self)@.policy == LanePolicy::Continuous ==> {
                &&& result == SubmissionResult::ContinuousGap
                &&& final(self)@.input == old(self)@.input
                &&& final(self)@.incomplete
                &&& final(self)@.diagnostics == (LaneDiagnostics {
                    continuous_gaps: wrap_inc(old(self)@.diagnostics.continuous_gaps),
                    ..old(self)@.diagnostics
                })
            },
    {
        proof {
            lemma_counters(self@.diagnostics);
        }
        if self.shutdown {
            return SubmissionResult::Shutdown;
        }
        if !self.receiver_connected {
            return SubmissionResult::ReceiverGone;
        }
        if self.input.len() == self.input_capacity {
            match self.policy {
                LanePolicy::LatestOnly => {
                    let ghost before = self.input@;
                    let _ = self.input.pop_front();
                    self.input.push_back(block);
                    assert(self.input@ =~= before.drop_first().push(block));
                    self.diagnostics.visual_drops = self.diagnostics.visual_drops.wrapping_add(1);
                    SubmissionResult::DroppedVisual
                },
                LanePolicy::Continuous => {
                    self.diagnostics.continuous_gaps =
                        self.diagnostics.continuous_gaps.wrapping_add(1);
                    self.incomplete = true;
                    SubmissionResult::ContinuousGap
                },
            }
        } else {
            self.input.push_back(block);
            let depth = self.input.len();
            self.diagnostics.input_depth = depth;
            if depth > self.diagnostics.input_high_water {
                self.diagnostics.input_high_water = depth;
            }
            SubmissionResult::Accepted
        }
    }

    /// The worker's next step: stop when the lane is shut down or nobody
    /// reads results; otherwise take the oldest block (on a latest-only lane,
    /// the newest, counting the skipped ones as stale); wait when there is
    /// none and the sender is still connected; stop otherwise.
    pub fn receive_input(&mut self) -> (step: InputStep<B>)
        requires
            lane_wf(old(self)@),
        ensures
            lane_step(old(self)@, final(self)@),
            lane_wf(final(self)@),
            final(self)@.output == old(self)@.output,
            final(self)@.policy == old(self)@.policy,
            final(self)@.input_capacity == old(self)@.input_capacity,
            final(self)@.output_capacity == old(self)@.output_capacity,
            final(self)@.shutdown == old(self)@.shutdown,
            final(self)@.sender_connected == old(self)@.sender_connected,
            final(self)@.receiver_connected == old(self)@.receiver_connected,
            final(self)@.incomplete == old(self)@.incomplete,
            final(self)@.previous_sequence == old(self)@.previous_sequence,
            (old(self)@.shutdown || !old(self)@.receiver_connected) ==> step is Stop
                && final(self)@ == old(self)@,
            !old(self)@.shutdown && old(self)@.receiver_connected && old(self)@.input.len()
                == 0 ==> final(self)@ == old(self)@ && (if old(self)@.sender_connected {
                step is Wait
            } else {
                step is Stop
            }),
            !old(self)@.shutdown && old(self)@.receiver_connected && old(self)@.input.len() > 0
                && old(self)@.policy == LanePolicy::Continuous ==> {
                &&& step == InputStep::Block(old(self)@.input[0])
                &&& final(self)@.input == old(self)@.input.drop_first()
                &&& final(self)@.diagnostics == (LaneDiagnostics {
                    input_depth: final(self)@.input.len() as usize,
                    ..old(self)@.diagnostics
                })
            },
            !old(self)@.shutdown && old(self)@.receiver_connected && old(self)@.input.len() > 0
                && old(self)@.policy == LanePolicy::LatestOnly ==> {
                &&& step == InputStep::Block(old(self)@.input.last())
                &&& final(self)@.input.len() == 0
                &&& final(self)@.diagnostics == (LaneDiagnostics {
                    input_depth: 0,
                    stale_visual_inputs: add_wrapping(
                        old(self)@.diagnostics.stale_visual_inputs,
                        (old(self)@.input.len() - 1) as nat,
                    ),
                    ..old(self)@.diagnostics
                })
            },
    {
        proof {
            lemma_counters(self@.diagnostics);
        }
        if self.shutdown || !self.receiver_connected {
            return InputStep::Stop;
        }
        if self.input.len() == 0 {
            if self.sender_connected {
                return InputStep::Wait;
            }
            return InputStep::Stop;
        }
        let ghost before = self.input@;
        let ghost stale0 = self.diagnostics.stale_visual_inputs;
        let first = self.input.pop_front();
        match first {
            Some(mut block) => {
                if self.policy == LanePolicy::LatestOnly {
                    while self.input.len() > 0
                        invariant
                            self@ == (LaneView {
                                input: self@.input,
                                diagnostics: self@.diagnostics,
                                ..old(self)@
                            }),
                            self.input@.len() < before.len(),
                            self.input@ == before.skip(before.len() - self.input@.len()),
                            block == before[before.len() - self.input@.len() - 1],
                            self.diagnostics.stale_visual_inputs == add_wrapping(
                                stale0,
                                (before.len() - self.input@.len() - 1) as nat,
                            ),
                            self.diagnostics.input_depth == old(self).diagnostics.input_depth,
                            self.diagnostics.input_high_water
                                == old(self).diagnostics.input_high_water,
                            self.diagnostics.output_depth == old(self).diagnostics.output_depth,
                            self.diagnostics.output_high_water
                                == old(self).diagnostics.output_high_water,
                            self.diagnostics.visual_drops == old(self).diagnostics.visual_drops,
                            self.diagnostics.continuous_gaps
                                == old(self).diagnostics.continuous_gaps,
                            self.diagnostics.processor_panics
                                == old(self).diagnostics.processor_panics,
                        decreases self.input@.len(),
                    {
                        let ghost cur = self.input@;
                        let newer = self.input.pop_front();
                        match newer {
                            Some(n) => {
                                assert(self.input@ =~= before.skip(
                                    before.len() - self.input@.len(),
                                ));
                                block = n;
                                self.diagnostics.stale_visual_inputs =
                                    self.diagnostics.stale_visual_inputs.wrapping_add(1);
                            },
                            None => {},
                        }
                    }
                }
                self.diagnostics.input_depth = self.input.len();
                InputStep::Block(block)
            },
            None => InputStep::Wait,
        }
    }

    /// The worker noting one block it is about to process: on a continuous
    /// lane a discontinuity or a sequence gap is counted and marks the lane
    /// incomplete.
    pub fn observe_block(&mut self, sequence: u64, discontinuity: bool)
        ensures
            lane_step(old(self)@, final(self)@),
            observe_step(old(self)@, final(self)@, sequence, discontinuity),
    {
        proof {
            lemma_counters(self@.diagnostics);
        }
        let gap = match self.previous_sequence {
            Some(previous) => sequence != previous.wrapping_add(1),
            None => false,
        };
        self.previous_sequence = Some(sequence);
        if self.policy == LanePolicy::Continuous && (discontinuity || gap) {
            self.diagnostics.continuous_gaps = self.diagnostics.continuous_gaps.wrapping_add(1);
            self.incomplete = true;
        }
    }

    /// The worker noting that the processor panicked on a block.
    pub fn record_panic(&mut self)
        ensures
            lane_step(old(self)@, final(self)@),
            final(self)@ == (LaneView {
                incomplete: true,
                diagnostics: LaneDiagnostics {
                    processor_panics: wrap_inc(old(self)@.diagnostics.processor_panics),
                    ..old(self)@.diagnostics
                },
                ..old(self)@
            }),
    {
        proof {
            lemma_counters(self@.diagnostics);
        }
        self.diagnostics.processor_panics = self.diagnostics.processor_panics.wrapping_add(1);
        self.incomplete = true;
    }

    /// The validity the worker gives its next result.
    pub fn validity(&self) -> (validity: LaneValidity)
        ensures
            validity == validity_of(self@.policy, self@.incomplete),
    {
        match self.policy {
            LanePolicy::LatestOnly => LaneValidity::Measured,
            LanePolicy::Continuous => if self.incomplete {
                LaneValidity::Incomplete
            } else {
                LaneValidity::Complete
            },
        }
    }

    /// The worker handing over one result: dropped when nobody reads; on a
    /// full mailbox a latest-only lane replaces the oldest result and a
    /// continuous lane records a gap.
    pub fn publish_output(&mut self, value: LaneOutput<T>)
        requires
            lane_wf(old(self)@),
        ensures
            lane_step(old(self)@, final(self)@),
            lane_wf(final(self)@),
            final(self)@.input == old(self)@.input,
            final(self)@.policy == old(self)@.policy,
            final(self)@.input_capacity == old(self)@.input_capacity,
            final(self)@.output_capacity == old(self)@.output_capacity,
            final(self)@.shutdown == old(self)@.shutdown,
            final(self)@.sender_connected == old(self)@.sender_connected,
            final(self)@.receiver_connected == old(self)@.receiver_connected,
            final(self)@.previous_sequence == old(self)@.previous_sequence,
            !old(self)@.receiver_connected ==> final(self)@ == old(self)@,
            old(self)@.receiver_connected && old(self)@.output.len()
                < old(self)@.output_capacity ==> {
                &&& final(self)@.output == old(self)@.output.push(value)
                &&& final(self)@.incomplete == old(self)@.incomplete
                &&& final(self)@.diagnostics == (LaneDiagnostics {
                    output_depth: final(self)@.output.len() as usize,
                    output_high_water: max_usize(
                        old(self)@.diagnostics.output_high_water,
                        final(self)@.output.len() as usize,
                    ),
                    ..old(self)@.diagnostics
                })
            },
            old(self)@.receiver_connected && old(self)@.output.len()
                == old(self)@.output_capacity && old(self)@.policy == LanePolicy::LatestOnly ==> {
                &&& final(self)@.output == old(self)@.output.drop_first().push(value)
                &&& final(self)@.incomplete == old(self)@.incomplete
                &&& final(self)@.diagnostics == (LaneDiagnostics {
                    visual_drops: wrap_inc(old(self)@.diagnostics.visual_drops),
                    ..old(self)@.diagnostics
                })
            },
            old(self)@.receiver_connected && old(self)@.output.len()
                == old(self)@.output_capacity && old(self)@.policy == LanePolicy::Continuous ==> {
                &&& final(self)@.output == old(self)@.output
                &&& final(self)@.incomplete
                &&& final(self)@.diagnostics == (LaneDiagnostics {
                    continuous_gaps: wrap_inc(old(self)@.diagnostics.continuous_gaps),
                    ..old(self)@.diagnostics
                })
            },
    {
        proof {
            lemma_counters(self@.diagnostics);
        }
        if !self.receiver_connected {
            return;
        }
        if self.output.len() == self.output_capacity {
            match self.policy {
                LanePolicy::LatestOnly => {
                    let ghost before = self.output@;
                    let _ = self.output.pop_front();
                    self.output.push_back(value);
                    assert(self.output@ =~= before.drop_first().push(value));
                    self.diagnostics.visual_drops = self.diagnostics.visual_drops.wrapping_add(1);
                },
                LanePolicy::Continuous => {
                    self.diagnostics.continuous_gaps =
                        self.diagnostics.continuous_gaps.wrapping_add(1);
                    self.incomplete = true;
                },
            }
            return;
        }
        self.output.push_back(value);
        let depth = self.output.len();
        self.diagnostics.output_depth = depth;
        if depth > self.diagnostics.output_high_water {
            self.diagnostics.output_high_water = depth;
        }
    }

    /// The receiver taking the oldest result, if there is one; never waits.
    pub fn try_receive(&mut self) -> (result: Option<LaneOutput<T>>)
        requires
            lane_wf(old(self)@),
        ensures
            lane_step(old(self)@, final(self)@),
            lane_wf(final(self)@),
            old(self)@.output.len() == 0 ==> result is None && final(self)@.output
                == old(self)@.output,
            old(self)@.output.len() > 0 ==> result == Some(old(self)@.output[0])
                && final(self)@.output == old(self)@.output.drop_first(),
            final(self)@ == (LaneView {
                output: final(self)@.output,
                diagnostics: LaneDiagnostics {
                    output_depth: final(self)@.output.len() as usize,
                    ..old(self)@.diagnostics
                },
                ..old(self)@
            }),
    {
        proof {
            lemma_counters(self@.diagnostics);
        }
        let ghost before = self.output@;
        let value = self.output.pop_front();
        self.diagnostics.output_depth = self.output.len();
        value
    }

    /// The receiver's step of a timed receive: the oldest result when there
    /// is one; disconnected when the lane is shut down or the sender is gone;
    /// otherwise the caller waits and tries again until its deadline.
    pub fn recv_step(&mut self) -> (step: RecvStep<T>)
        requires
            lane_wf(old(self)@),
        ensures
            lane_step(old(self)@, final(self)@),
            lane_wf(final(self)@),
            old(self)@.output.len() > 0 ==> step == RecvStep::Ready(old(self)@.output[0])
                && final(self)@ == (LaneView {
                output: old(self)@.output.drop_first(),
                diagnostics: LaneDiagnostics {
                    output_depth: (old(self)@.output.len() - 1) as usize,
                    ..old(self)@.diagnostics
                },
                ..old(self)@
            }),
            old(self)@.output.len() == 0 ==> final(self)@ == old(self)@ && (if old(self)@.shutdown
                || !old(self)@.sender_connected {
                step is Disconnected
            } else {
                step is Wait
            }),
    {
        proof {
            lemma_counters(self@.diagnostics);
        }
        if self.output.len() > 0 {
            let value = self.output.pop_front();
            self.diagnostics.output_depth = self.output.len();
            match value {
                Some(v) => RecvStep::Ready(v),
                None => RecvStep::Wait,
            }
        } else if self.shutdown || !self.sender_connected {
            RecvStep::Disconnected
        } else {
            RecvStep::Wait
        }
    }

    /// Shuts the lane down: submissions are refused and the worker stops.
    pub fn shutdown(&mut self)
        ensures
            lane_step(old(self)@, final(self)@),
            final(self)@ == (LaneView { shutdown: true, ..old(self)@ }),
    {
        proof {
            lemma_counters(self@.diagnostics);
        }
        self.shutdown = true;
    }

    /// The sender went away.
    pub fn disconnect_sender(&mut self)
        ensures
            lane_step(old(self)@, final(self)@),
            final(self)@ == (LaneView { sender_connected: false, ..old(self)@ }),
    {
        proof {
            lemma_counters(self@.diagnostics);
        }
        self.sender_connected = false;
    }

    /// The receiver went away: its unread results are discarded.
    pub fn disconnect_receiver(&mut self)
        requires
            lane_wf(old(self)@),
        ensures
            lane_step(old(self)@, final(self)@),
            lane_wf(final(self)@),
            final(self)@ == (LaneView {
                receiver_connected: false,
                output: Seq::empty(),
                diagnostics: LaneDiagnostics { output_depth: 0, ..old(self)@.diagnostics },
                ..old(self)@
            }),
    {
        proof {
            lemma_counters(self@.diagnostics);
        }
        self.receiver_connected = false;
        self.output.clear();
        self.diagnostics.output_depth = 0;
    }

    /// The worker leaving: unprocessed blocks are discarded.
    pub fn finish_worker(&mut self)
        requires
            lane_wf(old(self)@),
        ensures
            lane_step(old(self)@, final(self)@),
            lane_wf(final(self)@),
            final(self)@ == (LaneView {
                input: Seq::empty(),
                diagnostics: LaneDiagnostics { input_depth: 0, ..old(self)@.diagnostics },
                ..old(self)@
            }),
    {
        proof {
            lemma_counters(self@.diagnostics);
        }
        self.input.clear();
        self.diagnostics.input_depth = 0;
    }

    /// A snapshot of the lane counters.
    pub fn diagnostics(&self) -> (diagnostics: LaneDiagnostics)
        ensures
            diagnostics == self@.diagnostics,
    {
        self.diagnostics
    }
}

/// `x + n` on a 64-bit counter that wraps after its maximum.
pub open spec fn add_wrapping(x: u64, n: nat) -> u64
    decreases n,
{
    if n == 0 {
        x
    } else {
        wrap_inc(add_wrapping(x, (n - 1) as nat))
    }
}

impl LaneDiagnostics {
    /// All counters at zero.
    pub open spec fn default_spec() -> LaneDiagnostics {
        LaneDiagnostics {
            input_depth: 0,
            input_high_water: 0,
            output_depth: 0,
            output_high_water: 0,
            visual_drops: 0,
            stale_visual_inputs: 0,
            continuous_gaps: 0,
            processor_panics: 0,
        }
    }

    /// All counters at zero.
    pub fn zero() -> (diagnostics: LaneDiagnostics)
        ensures
            diagnostics == LaneDiagnostics::default_spec(),
    {
        LaneDiagnostics {
            input_depth: 0,
            input_high_water: 0,
            output_depth: 0,
            output_high_water: 0,
            visual_drops: 0,
            stale_visual_inputs: 0,
            continuous_gaps: 0,
            processor_panics: 0,
        }
    }
}

} // verus!
