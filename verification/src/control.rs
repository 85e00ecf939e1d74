//! Playback control shared by the audio owner and the output callback: pause,
//! stop, seek handshakes, buffer discards, and ordered track changes.
//!
//! Every operation is stated as a transition of [`ControlState`], so that the
//! laws at the end of this file can speak of sequences of operations.
use std::collections::VecDeque;

use vstd::prelude::*;

verus! {

/// How a playback session ended, if it has.
#[derive(Clone, Copy, Debug, PartialEq, Eq, Structural)]
pub enum Terminal {
    Active,
    Stopped,
    Completed,
    Failed,
}

/// Terminal outcome of one-shot playback, as reported to its owner.
#[derive(Clone, Copy, Debug, PartialEq, Eq, Structural)]
pub enum PlaybackEvent {
    Completed,
    Failed,
}

/// The file that playback moved on to, published when its first sample is
/// queued and delivered when that sample is played.
#[derive(Clone, Debug)]
pub struct TrackChange {
    pub path: String,
    pub duration_ms: Option<u64>,
}

/// A track change waiting for the callback to reach its sequence number.
pub struct PendingTrackChange {
    pub sequence: u64,
    pub change: TrackChange,
}

/// The abstract state of a [`PlaybackControl`].
pub struct ControlState {
    pub paused: bool,
    pub stopped: bool,
    pub seeking: bool,
    pub generation: u64,
    pub seek_generation: u64,
    pub discard_request: u64,
    pub discard_ack: u64,
    pub fade_requested: bool,
    pub fade_complete: bool,
    pub output_active: bool,
    pub terminal: Terminal,
    pub position_frames: u64,
    pub next_sequence: u64,
    pub reached_sequence: u64,
    pub pending: Seq<(u64, TrackChange)>,
}

/// Playback control shared by the audio owner and the output callback.
pub struct PlaybackControl {
    paused: bool,
    stopped: bool,
    seeking: bool,
    generation: u64,
    seek_generation: u64,
    buffer_discard_request: u64,
    buffer_discard_ack: u64,
    seek_fade_requested: bool,
    seek_fade_complete: bool,
    output_active: bool,
    terminal: Terminal,
    position_frames: u64,
    next_track_change_sequence: u64,
    reached_track_change_sequence: u64,
    track_changes: VecDeque<PendingTrackChange>,
}

/// Successor of a 64-bit counter that wraps to zero after its maximum.
pub open spec fn wrap_inc(x: u64) -> u64 {
    if x == u64::MAX {
        0
    } else {
        (x + 1) as u64
    }
}

/// The pending track changes as (sequence, change) pairs.
pub open spec fn pending_view(q: Seq<PendingTrackChange>) -> Seq<(u64, TrackChange)> {
    q.map_values(|p: PendingTrackChange| (p.sequence, p.change))
}

/// Pending track changes are in strictly increasing sequence order and none
/// is numbered above the last published sequence.
pub open spec fn pending_ordered(pending: Seq<(u64, TrackChange)>, next: u64) -> bool {
    &&& forall|i: int, j: int| 0 <= i < j < pending.len() ==> pending[i].0 < pending[j].0
    &&& forall|i: int| 0 <= i < pending.len() ==> pending[i].0 <= next
}

/// What a well-formed control state always satisfies: a session that ended
/// is stopped, and pending track changes are ordered.
pub open spec fn control_wf(s: ControlState) -> bool {
    &&& s.terminal != Terminal::Active ==> s.stopped
    &&& pending_ordered(s.pending, s.next_sequence)
}

/// The state of a freshly created session.
pub open spec fn initial_control() -> ControlState {
    ControlState {
        paused: false,
        stopped: false,
        seeking: false,
        generation: 0,
        seek_generation: 0,
        discard_request: 0,
        discard_ack: 0,
        fade_requested: false,
        fade_complete: true,
        output_active: false,
        terminal: Terminal::Active,
        position_frames: 0,
        next_sequence: 0,
        reached_sequence: 0,
        pending: Seq::empty(),
    }
}

/// `stop`: ends an active session as stopped; always marks it stopped.
pub open spec fn stop_step(s: ControlState) -> ControlState {
    ControlState {
        terminal: if s.terminal == Terminal::Active {
            Terminal::Stopped
        } else {
            s.terminal
        },
        stopped: true,
        ..s
    }
}

/// Claiming an outcome: succeeds only on an active session.
pub open spec fn claim_step(s: ControlState, outcome: Terminal) -> (ControlState, bool) {
    if s.terminal == Terminal::Active {
        (ControlState { terminal: outcome, stopped: true, ..s }, true)
    } else {
        (s, false)
    }
}

/// `begin_seek`: a paused or silent output needs no fade-out; otherwise the
/// callback is asked to fade out first.
pub open spec fn begin_seek_step(s: ControlState) -> ControlState {
    if s.paused || !s.output_active {
        ControlState { seeking: true, fade_complete: true, ..s }
    } else {
        ControlState { seeking: true, fade_complete: false, fade_requested: true, ..s }
    }
}

/// `complete_seek`: a new buffer generation starts and the seek ends.
pub open spec fn complete_seek_step(s: ControlState) -> ControlState {
    ControlState {
        generation: wrap_inc(s.generation),
        fade_requested: false,
        seeking: false,
        ..s
    }
}

/// `complete_user_seek`: as `complete_seek`, and a user seek is counted.
pub open spec fn complete_user_seek_step(s: ControlState) -> ControlState {
    complete_seek_step(ControlState { seek_generation: wrap_inc(s.seek_generation), ..s })
}

/// `cancel_seek`: the seek ends without a new generation.
pub open spec fn cancel_seek_step(s: ControlState) -> ControlState {
    ControlState { fade_requested: false, seeking: false, ..s }
}

/// `publish_track_change`: the change is queued under the next sequence number.
pub open spec fn publish_step(s: ControlState, change: TrackChange) -> (ControlState, u64) {
    let sequence = (s.next_sequence + 1) as u64;
    (ControlState { next_sequence: sequence, pending: s.pending.push((sequence, change)), ..s }, sequence)
}

/// `take_track_change`: the oldest pending change, once the callback has
/// reached its sequence number.
pub open spec fn take_step(s: ControlState) -> (ControlState, Option<TrackChange>) {
    if s.pending.len() > 0 && s.pending[0].0 <= s.reached_sequence {
        (ControlState { pending: s.pending.drop_first(), ..s }, Some(s.pending[0].1))
    } else {
        (s, None)
    }
}

/// The callback acknowledging an outstanding buffer discard request.
pub open spec fn acknowledge_step(s: ControlState) -> (ControlState, bool) {
    if s.discard_request <= s.discard_ack {
        (s, false)
    } else {
        (ControlState { discard_ack: s.discard_request, ..s }, true)
    }
}

/// The callback taking one buffered sample: a sample of a stale generation is
/// refused; an accepted one may reset the clock and reach a track change.
pub open spec fn accept_sample_step(
    s: ControlState,
    generation: u64,
    position_reset: Option<u64>,
    track_change: Option<u64>,
) -> (ControlState, bool) {
    if generation != s.generation {
        (s, false)
    } else {
        let s1 = match position_reset {
            Some(frames) => ControlState { position_frames: frames, ..s },
            None => s,
        };
        let s2 = match track_change {
            Some(sequence) => ControlState { reached_sequence: sequence, ..s1 },
            None => s1,
        };
        (s2, true)
    }
}

impl View for PlaybackControl {
    type V = ControlState;

    closed spec fn view(&self) -> ControlState {
        ControlState {
            paused: self.paused,
            stopped: self.stopped,
            seeking: self.seeking,
            generation: self.generation,
            seek_generation: self.seek_generation,
            discard_request: self.buffer_discard_request,
            discard_ack: self.buffer_discard_ack,
            fade_requested: self.seek_fade_requested,
            fade_complete: self.seek_fade_complete,
            output_active: self.output_active,
            terminal: self.terminal,
            position_frames: self.position_frames,
            next_sequence: self.next_track_change_sequence,
            reached_sequence: self.reached_track_change_sequence,
            pending: pending_view(self.track_changes@),
        }
    }
}

impl PlaybackControl {
    /// A control for a new, active, unpaused session.
    pub fn new() -> (control: Self)
        ensures
            control@ == initial_control(),
            control_wf(control@),
    {
        let control = PlaybackControl {
            paused: false,
            stopped: false,
            seeking: false,
            generation: 0,
            seek_generation: 0,
            buffer_discard_request: 0,
            buffer_discard_ack: 0,
            seek_fade_requested: false,
            seek_fade_complete: true,
            output_active: false,
            terminal: Terminal::Active,
            position_frames: 0,
            next_track_change_sequence: 0,
            reached_track_change_sequence: 0,
            track_changes: VecDeque::new(),
        };
        assert(control@.pending =~= Seq::<(u64, TrackChange)>::empty());
        control
    }

    /// Pauses consumption without discarding buffered frames.
    pub fn pause(&mut self)
        ensures
            final(self)@ == (ControlState { paused: true, ..old(self)@ }),
    {
        self.paused = true;
    }

    /// Resumes consumption from the current buffered position.
    pub fn resume(&mut self)
        ensures
            final(self)@ == (ControlState { paused: false, ..old(self)@ }),
    {
        self.paused = false;
    }

    /// Stops playback permanently for this session.
    pub fn stop(&mut self)
        requires
            control_wf(old(self)@),
        ensures
            final(self)@ == stop_step(old(self)@),
            control_wf(final(self)@),
    {
        if self.terminal == Terminal::Active {
            self.terminal = Terminal::Stopped;
        }
        self.stopped = true;
    }

    /// Whether consumption is paused.
    pub fn is_paused(&self) -> (result: bool)
        ensures
            result == self@.paused,
    {
        self.paused
    }

    /// Whether this playback session has been stopped.
    pub fn is_stopped(&self) -> (result: bool)
        ensures
            result == self@.stopped,
    {
        self.stopped
    }

    /// Whether playback reached the end naturally.
    pub fn is_completed(&self) -> (result: bool)
        ensures
            result == (self@.terminal == Terminal::Completed),
    {
        self.terminal == Terminal::Completed
    }

    /// Whether the output has played audio since the last seek fade-out.
    pub fn is_output_active(&self) -> (result: bool)
        ensures
            result == self@.output_active,
    {
        self.output_active
    }

    /// Whether a seek is in progress.
    pub fn is_seeking(&self) -> (result: bool)
        ensures
            result == self@.seeking,
    {
        self.seeking
    }

    /// Whether the seek fade-out has finished.
    pub fn is_seek_fade_complete(&self) -> (result: bool)
        ensures
            result == self@.fade_complete,
    {
        self.seek_fade_complete
    }

    /// How the session ended, if it has.
    pub fn terminal(&self) -> (result: Terminal)
        ensures
            result == self@.terminal,
    {
        self.terminal
    }

    /// The number of output frames consumed by the audio callback.
    pub fn position_frames(&self) -> (result: u64)
        ensures
            result == self@.position_frames,
    {
        self.position_frames
    }

    /// Resets the callback clock after a successful seek.
    pub fn set_position_frames(&mut self, frames: u64)
        ensures
            final(self)@ == (ControlState { position_frames: frames, ..old(self)@ }),
    {
        self.position_frames = frames;
    }

    /// Records one more output frame played by the callback.
    pub fn advance_position(&mut self)
        ensures
            final(self)@ == (ControlState {
                position_frames: wrap_inc(old(self)@.position_frames),
                output_active: true,
                ..old(self)@
            }),
    {
        self.position_frames = self.position_frames.wrapping_add(1);
        self.output_active = true;
    }

    /// Queues a track change under the next sequence number and returns it.
    pub fn publish_track_change(&mut self, change: TrackChange) -> (sequence: u64)
        requires
            control_wf(old(self)@),
            old(self)@.next_sequence < u64::MAX,
        ensures
            (final(self)@, sequence) == publish_step(old(self)@, change),
            control_wf(final(self)@),
    {
        let sequence = self.next_track_change_sequence + 1;
        self.next_track_change_sequence = sequence;
        let ghost before = self.track_changes@;
        self.track_changes.push_back(PendingTrackChange { sequence, change });
        assert(pending_view(self.track_changes@) =~= pending_view(before).push((sequence, change)));
        sequence
    }

    /// Delivers the oldest pending track change once the callback has played
    /// its first sample.
    pub fn take_track_change(&mut self) -> (result: Option<TrackChange>)
        requires
            control_wf(old(self)@),
        ensures
            (final(self)@, result) == take_step(old(self)@),
            control_wf(final(self)@),
    {
        let reached = self.reached_track_change_sequence;
        let ready = self.track_changes.len() > 0 && self.track_changes[0].sequence <= reached;
        if ready {
            let ghost before = self.track_changes@;
            let taken = self.track_changes.pop_front();
            assert(pending_view(self.track_changes@) =~= pending_view(before).drop_first());
            match taken {
                Some(pending) => Some(pending.change),
                None => None,
            }
        } else {
            None
        }
    }

    /// The current buffer generation.
    pub fn generation(&self) -> (result: u64)
        ensures
            result == self@.generation,
    {
        self.generation
    }

    /// The number of user seeks completed.
    pub fn seek_generation(&self) -> (result: u64)
        ensures
            result == self@.seek_generation,
    {
        self.seek_generation
    }

    /// The sequence of the last track change the callback reached.
    pub fn reached_track_change(&self) -> (result: u64)
        ensures
            result == self@.reached_sequence,
    {
        self.reached_track_change_sequence
    }

    /// Starts a seek, asking the callback to fade out when audio is playing.
    pub fn begin_seek(&mut self)
        ensures
            final(self)@ == begin_seek_step(old(self)@),
    {
        self.seeking = true;
        if self.paused || !self.output_active {
            self.seek_fade_complete = true;
        } else {
            self.seek_fade_complete = false;
            self.seek_fade_requested = true;
        }
    }

    /// Finishes a seek: buffered samples of the old generation become stale.
    pub fn complete_seek(&mut self)
        ensures
            final(self)@ == complete_seek_step(old(self)@),
    {
        self.generation = self.generation.wrapping_add(1);
        self.seek_fade_requested = false;
        self.seeking = false;
    }

    /// Finishes a seek the user asked for.
    pub fn complete_user_seek(&mut self)
        ensures
            final(self)@ == complete_user_seek_step(old(self)@),
    {
        self.seek_generation = self.seek_generation.wrapping_add(1);
        self.complete_seek();
    }

    /// Asks the callback to discard everything buffered; returns the request
    /// number to wait for.
    pub fn request_buffer_discard(&mut self) -> (request: u64)
        requires
            old(self)@.discard_request < u64::MAX,
        ensures
            request == old(self)@.discard_request + 1,
            final(self)@ == (ControlState { discard_request: request, ..old(self)@ }),
    {
        self.buffer_discard_request = self.buffer_discard_request + 1;
        self.buffer_discard_request
    }

    /// The number of the latest buffer discard requested.
    pub fn discard_request(&self) -> (result: u64)
        ensures
            result == self@.discard_request,
    {
        self.buffer_discard_request
    }

    /// Whether the callback has discarded the buffer for `request`.
    pub fn buffer_discarded(&self, request: u64) -> (result: bool)
        ensures
            result == (self@.discard_ack >= request),
    {
        self.buffer_discard_ack >= request
    }

    /// Abandons a seek that could not be carried out.
    pub fn cancel_seek(&mut self)
        ensures
            final(self)@ == cancel_seek_step(old(self)@),
    {
        self.seek_fade_requested = false;
        self.seeking = false;
    }

    /// Claims natural completion; fails when the session already ended.
    pub fn claim_completion(&mut self) -> (claimed: bool)
        requires
            control_wf(old(self)@),
        ensures
            (final(self)@, claimed) == claim_step(old(self)@, Terminal::Completed),
            control_wf(final(self)@),
    {
        if self.terminal == Terminal::Active {
            self.terminal = Terminal::Completed;
            self.stopped = true;
            true
        } else {
            false
        }
    }

    /// Claims failure; fails when the session already ended.
    pub fn claim_failure(&mut self) -> (claimed: bool)
        requires
            control_wf(old(self)@),
        ensures
            (final(self)@, claimed) == claim_step(old(self)@, Terminal::Failed),
            control_wf(final(self)@),
    {
        if self.terminal == Terminal::Active {
            self.terminal = Terminal::Failed;
            self.stopped = true;
            true
        } else {
            false
        }
    }

    /// The callback's side of a buffer discard: acknowledges an outstanding
    /// request and reports whether it had to discard.
    pub fn acknowledge_buffer_discard(&mut self) -> (discard: bool)
        ensures
            (final(self)@, discard) == acknowledge_step(old(self)@),
    {
        let request = self.buffer_discard_request;
        if request <= self.buffer_discard_ack {
            return false;
        }
        self.buffer_discard_ack = request;
        true
    }

    /// The callback's side of a seek fade-out: takes a pending fade request.
    pub fn take_fade_request(&mut self) -> (requested: bool)
        ensures
            requested == old(self)@.fade_requested,
            final(self)@ == (ControlState { fade_requested: false, ..old(self)@ }),
    {
        let requested = self.seek_fade_requested;
        self.seek_fade_requested = false;
        requested
    }

    /// The callback reporting that its seek fade-out is done.
    pub fn finish_fade(&mut self)
        ensures
            final(self)@ == (ControlState {
                output_active: false,
                fade_complete: true,
                ..old(self)@
            }),
    {
        self.output_active = false;
        self.seek_fade_complete = true;
    }

    /// The callback taking one buffered sample of generation `generation`,
    /// which may carry a clock reset and a track change sequence number.
    pub fn accept_sample(
        &mut self,
        generation: u64,
        position_reset: Option<u64>,
        track_change: Option<u64>,
    ) -> (accepted: bool)
        ensures
            (final(self)@, accepted) == accept_sample_step(
                old(self)@,
                generation,
                position_reset,
                track_change,
            ),
    {
        if generation != self.generation {
            return false;
        }
        if let Some(frames) = position_reset {
            self.position_frames = frames;
        }
        if let Some(sequence) = track_change {
            self.reached_track_change_sequence = sequence;
        }
        true
    }
}

/// What the output callback does with one buffer.
#[derive(Clone, Copy, Debug, PartialEq, Eq, Structural)]
pub enum CallbackStep {
    /// A format without channels: nothing is written.
    Idle,
    /// A buffer discard was requested: drop what is buffered, output silence.
    Discard,
    /// Stopped or paused: output silence.
    Silence,
    /// A seek is under way: render the fade-out.
    SeekFade,
    /// Play buffered samples.
    Play,
}

/// The callback's decision for one buffer, and the control state after it.
pub open spec fn callback_step(s: ControlState, source_channels: usize, output_channels: usize) -> (ControlState, CallbackStep) {
    if source_channels == 0 || output_channels == 0 {
        (s, CallbackStep::Idle)
    } else {
        let (t, discard) = acknowledge_step(s);
        if discard {
            (t, CallbackStep::Discard)
        } else if t.stopped || t.paused {
            (t, CallbackStep::Silence)
        } else if t.seeking {
            (t, CallbackStep::SeekFade)
        } else {
            (t, CallbackStep::Play)
        }
    }
}

impl PlaybackControl {
    /// The output callback's first decision for a buffer: nothing without
    /// channels; a requested discard is acknowledged first; a stopped or
    /// paused session is silent; a seek renders its fade; otherwise play.
    pub fn begin_callback(&mut self, source_channels: usize, output_channels: usize) -> (step: CallbackStep)
        ensures
            (final(self)@, step) == callback_step(old(self)@, source_channels, output_channels),
    {
        if source_channels == 0 || output_channels == 0 {
            return CallbackStep::Idle;
        }
        if self.acknowledge_buffer_discard() {
            return CallbackStep::Discard;
        }
        if self.stopped || self.paused {
            return CallbackStep::Silence;
        }
        if self.seeking {
            return CallbackStep::SeekFade;
        }
        CallbackStep::Play
    }
}

/// A session's outcome is claimed at most once: after a successful claim,
/// any further claim fails and changes nothing, and stopping keeps the
/// claimed outcome.
pub proof fn law_outcome_claimed_once(s: ControlState, first: Terminal, second: Terminal)
    requires
        control_wf(s),
        first != Terminal::Active,
    ensures
        claim_step(s, first).1 ==> {
            let t = claim_step(s, first).0;
            &&& t.terminal == first
            &&& t.stopped
            &&& claim_step(t, second) == (t, false)
            &&& stop_step(t).terminal == first
        },
{
}

/// An ended session stays ended: stopping is idempotent and never revives
/// it, and every state it reaches is well formed.
pub proof fn law_stop_is_final(s: ControlState)
    requires
        control_wf(s),
    ensures
        stop_step(s).stopped,
        stop_step(s).terminal != Terminal::Active,
        s.terminal != Terminal::Active ==> stop_step(s).terminal == s.terminal,
        stop_step(stop_step(s)) == stop_step(s),
        control_wf(stop_step(s)),
{
}

/// A completed seek makes every sample of the previous generation stale:
/// the callback refuses it and its state does not change.
pub proof fn law_seek_refuses_stale_samples(
    s: ControlState,
    position_reset: Option<u64>,
    track_change: Option<u64>,
)
    ensures
        ({
            let t = complete_seek_step(s);
            accept_sample_step(t, s.generation, position_reset, track_change) == (t, false)
        }),
        ({
            let t = complete_user_seek_step(s);
            accept_sample_step(t, s.generation, position_reset, track_change) == (t, false)
        }),
{
}

/// A buffer discard is carried out once per request: the first
/// acknowledgement of an outstanding request discards and satisfies it, a
/// second one does nothing.
pub proof fn law_discard_acknowledged_once(s: ControlState)
    requires
        s.discard_ack < s.discard_request,
    ensures
        acknowledge_step(s).1,
        acknowledge_step(s).0.discard_ack >= s.discard_request,
        acknowledge_step(acknowledge_step(s).0) == (acknowledge_step(s).0, false),
{
}

/// A published track change is not delivered before the callback plays a
/// sample that reaches it, and is delivered, in publication order, once it
/// has.
pub proof fn law_track_change_delivered_when_reached(
    s: ControlState,
    change: TrackChange,
    generation: u64,
)
    requires
        control_wf(s),
        s.pending.len() == 0,
        s.next_sequence < u64::MAX,
        s.reached_sequence <= s.next_sequence,
        generation == s.generation,
    ensures
        ({
            let (published, sequence) = publish_step(s, change);
            let (played, accepted) = accept_sample_step(published, generation, None, Some(sequence));
            &&& take_step(published).1 is None
            &&& accepted
            &&& take_step(played).1 == Some(change)
            &&& take_step(played).0.pending.len() == 0
        }),
{
}

/// Track changes leave in the order they were published: whatever is taken
/// is the oldest pending change, and only once its sample was reached.
pub proof fn law_track_changes_in_order(s: ControlState)
    requires
        control_wf(s),
    ensures
        take_step(s).1 matches Some(change) ==> s.pending.len() > 0 && change == s.pending[0].1
            && s.pending[0].0 <= s.reached_sequence && take_step(s).0.pending == s.pending.drop_first(),
        take_step(s).1 is None ==> take_step(s).0 == s,
        control_wf(take_step(s).0),
{
    if take_step(s).1 is Some {
        let t = take_step(s).0;
        assert forall|i: int, j: int| 0 <= i < j < t.pending.len() implies t.pending[i].0 < t.pending[j].0 by {
            assert(t.pending[i] == s.pending[i + 1]);
            assert(t.pending[j] == s.pending[j + 1]);
        }
        assert forall|i: int| 0 <= i < t.pending.len() implies t.pending[i].0 <= t.next_sequence by {
            assert(t.pending[i] == s.pending[i + 1]);
        }
    }
}

/// The callback never plays while a buffer discard is outstanding: its next
/// buffer discards and acknowledges the request; and a stopped or paused
/// session never plays.
pub proof fn law_callback_honours_discard_and_pause(s: ControlState, source_channels: usize, output_channels: usize)
    requires
        source_channels > 0,
        output_channels > 0,
    ensures
        s.discard_ack < s.discard_request ==> callback_step(s, source_channels, output_channels).1 == CallbackStep::Discard
            && callback_step(s, source_channels, output_channels).0.discard_ack == s.discard_request,
        s.stopped || s.paused ==> callback_step(s, source_channels, output_channels).1 != CallbackStep::Play,
        s.seeking ==> callback_step(s, source_channels, output_channels).1 != CallbackStep::Play,
{
}

} // verus!

verus! {

/// What the output callback does with one output frame.
#[derive(Clone, Copy, Debug, PartialEq, Eq, Structural)]
pub enum FramePlan {
    /// Take one whole source frame and play it.
    Play,
    /// Take nothing: silence, or the tail of the seek ramp.
    Silence,
}

/// The plan of frame `k`: a frame plays only while a whole source frame is
/// still buffered for it, and never right after a seek replaced the buffer.
pub open spec fn frame_plan(k: int, available: usize, source_channels: usize, replaced: bool) -> FramePlan {
    if !replaced && (k + 1) * source_channels <= available {
        FramePlan::Play
    } else {
        FramePlan::Silence
    }
}

/// Plans one callback buffer of `frames` output frames when `available`
/// samples are buffered: frames play, one whole source frame each, while a
/// whole source frame is left; once the buffer starves (or a seek replaced
/// it) every remaining frame is silent. No partial source frame is taken.
pub fn plan_callback(available: usize, source_channels: usize, output_channels: usize, frames: usize, replaced: bool) -> (plan: Vec<FramePlan>)
    requires
        source_channels > 0,
        output_channels > 0,
    ensures
        plan@.len() == frames,
        forall|k: int| 0 <= k < frames ==> #[trigger] plan@[k] == frame_plan(k, available, source_channels, replaced),
        forall|j: int, k: int|
            #![trigger plan@[j], plan@[k]]
            0 <= j < k < frames && plan@[j] == FramePlan::Silence ==> plan@[k] == FramePlan::Silence,
        samples_taken(plan@, source_channels) <= available,
{
    let mut plan: Vec<FramePlan> = Vec::new();
    let mut remaining: usize = available;
    let mut drained = replaced;
    let mut k: usize = 0;
    while k < frames
        invariant
            k <= frames,
            plan@.len() == k,
            source_channels > 0,
            drained == (replaced || (k > 0 && k * source_channels > available)),
            !drained ==> remaining == available - k * source_channels,
            !drained ==> samples_taken(plan@, source_channels) == k * source_channels,
            samples_taken(plan@, source_channels) <= available,
            forall|i: int| 0 <= i < k ==> #[trigger] plan@[i] == frame_plan(i, available, source_channels, replaced),
        decreases frames - k,
    {
        let ghost before = plan@;
        if drained || remaining < source_channels {
            plan.push(FramePlan::Silence);
            assert(plan@.drop_last() == before);
            drained = true;
            proof {
                if !replaced {
                    assert((k + 1) * source_channels > available) by (nonlinear_arith)
                        requires
                            (k > 0 && k * source_channels > available) || (remaining < source_channels && remaining == available - k * source_channels),
                            source_channels > 0;
                }
            }
        } else {
            plan.push(FramePlan::Play);
            assert(plan@.drop_last() == before);
            remaining = remaining - source_channels;
            proof {
                assert((k + 1) * source_channels == k * source_channels + source_channels) by (nonlinear_arith);
            }
        }
        k = k + 1;
    }
    proof {
        assert forall|j: int, k: int|
            #![trigger plan@[j], plan@[k]]
            0 <= j < k < frames && plan@[j] == FramePlan::Silence implies plan@[k] == FramePlan::Silence by {
            if !replaced {
                assert((k + 1) * source_channels >= (j + 1) * source_channels) by (nonlinear_arith)
                    requires
                        j < k,
                        source_channels > 0;
                assert(plan@[j] == frame_plan(j, available, source_channels, replaced));
                assert(plan@[k] == frame_plan(k, available, source_channels, replaced));
            }
        }
    }
    plan
}

/// The number of source samples a plan takes: one whole source frame per
/// played frame.
pub open spec fn samples_taken(plan: Seq<FramePlan>, source_channels: usize) -> int
    decreases plan.len(),
{
    if plan.len() == 0 {
        0
    } else {
        samples_taken(plan.drop_last(), source_channels) + if plan.last() == FramePlan::Play {
            source_channels as int
        } else {
            0
        }
    }
}

/// Whether the analysis batch must be handed on before one more source frame
/// fits: it holds `count` samples of at most `capacity`.
pub fn monitor_batch_full(count: usize, source_channels: usize, capacity: usize) -> (full: bool)
    ensures
        full == (count + source_channels > capacity),
{
    count > capacity || source_channels > capacity - count
}

/// What the output callback remembers between calls: the track change and
/// the seek generation the analysis tap last followed, the seek generation
/// the buffer was last replaced for, and whether the buffer was already
/// cleared for the seek in progress.
pub struct CallbackMemory {
    pub analysis_track_change: u64,
    pub analysis_seek_generation: u64,
    pub observed_seek_generation: u64,
    pub buffer_cleared_for_seek: bool,
}

/// What a callback does before it plays, once it has read the control's
/// counters.
pub struct CallbackStart {
    /// The analysis tap moves on to a new source: a track change was reached.
    pub rotate_source: bool,
    /// The analysis tap starts a new session at the current position: a
    /// seek happened.
    pub new_analysis_session: bool,
    /// The buffer holds the samples of a new seek: the ramp restarts.
    pub replaced_buffer: bool,
    /// The buffered samples are dropped: a new seek whose buffer was not
    /// cleared yet.
    pub discard_buffer: bool,
}

/// The memory after a callback read `track_change` and `seek_generation`,
/// and what it does before it plays.
pub open spec fn start_step(m: CallbackMemory, track_change: u64, seek_generation: u64) -> (CallbackMemory, CallbackStart) {
    let replaced = seek_generation != m.observed_seek_generation;
    (
        CallbackMemory {
            analysis_track_change: track_change,
            analysis_seek_generation: seek_generation,
            observed_seek_generation: seek_generation,
            buffer_cleared_for_seek: if replaced {
                false
            } else {
                m.buffer_cleared_for_seek
            },
        },
        CallbackStart {
            rotate_source: track_change != m.analysis_track_change,
            new_analysis_session: seek_generation != m.analysis_seek_generation,
            replaced_buffer: replaced,
            discard_buffer: replaced && !m.buffer_cleared_for_seek,
        },
    )
}

impl CallbackMemory {
    /// The memory of a callback that has seen nothing yet.
    pub fn new() -> (m: Self)
        ensures
            m == (CallbackMemory {
                analysis_track_change: 0,
                analysis_seek_generation: 0,
                observed_seek_generation: 0,
                buffer_cleared_for_seek: false,
            }),
    {
        CallbackMemory {
            analysis_track_change: 0,
            analysis_seek_generation: 0,
            observed_seek_generation: 0,
            buffer_cleared_for_seek: false,
        }
    }

    /// Reads the counters at the start of a playing callback.
    pub fn begin(&mut self, track_change: u64, seek_generation: u64) -> (start: CallbackStart)
        ensures
            (*final(self), start) == start_step(*old(self), track_change, seek_generation),
    {
        let replaced = seek_generation != self.observed_seek_generation;
        let start = CallbackStart {
            rotate_source: track_change != self.analysis_track_change,
            new_analysis_session: seek_generation != self.analysis_seek_generation,
            replaced_buffer: replaced,
            discard_buffer: replaced && !self.buffer_cleared_for_seek,
        };
        self.analysis_track_change = track_change;
        self.analysis_seek_generation = seek_generation;
        self.observed_seek_generation = seek_generation;
        if replaced {
            self.buffer_cleared_for_seek = false;
        }
        start
    }

    /// A frame was played at `track_change`: whether the analysis tap moves
    /// on to a new source.
    pub fn frame_track_change(&mut self, track_change: u64) -> (rotate: bool)
        ensures
            rotate == (track_change != old(self).analysis_track_change),
            *final(self) == (CallbackMemory { analysis_track_change: track_change, ..*old(self) }),
    {
        let rotate = track_change != self.analysis_track_change;
        self.analysis_track_change = track_change;
        rotate
    }

    /// The seek fade-out has finished: the buffer is cleared for the seek,
    /// and whether it must still be discarded now.
    pub fn fade_finished(&mut self) -> (discard: bool)
        ensures
            discard == !old(self).buffer_cleared_for_seek,
            *final(self) == (CallbackMemory { buffer_cleared_for_seek: true, ..*old(self) }),
    {
        let discard = !self.buffer_cleared_for_seek;
        self.buffer_cleared_for_seek = true;
        discard
    }
}

/// Whether the analysis batch is handed on before a frame whose playing
/// moved the position from `frame_position` to `reset_position`: the
/// position jumped and the batch is not empty.
pub fn position_reset(frame_position: u64, reset_position: u64, pending: usize) -> (flush: bool)
    ensures
        flush == (frame_position != reset_position && pending > 0),
{
    frame_position != reset_position && pending > 0
}

/// A seek is taken up once: a callback that reads the generation it read
/// last neither replaces the buffer, nor discards it, nor starts another
/// analysis session; and a buffer cleared by the fade-out is not discarded
/// again for the same seek.
pub proof fn law_seek_taken_up_once(m: CallbackMemory, track_change: u64, seek_generation: u64, later_track_change: u64)
    ensures
        ({
            let (m1, _) = start_step(m, track_change, seek_generation);
            let (_, s2) = start_step(m1, later_track_change, seek_generation);
            !s2.replaced_buffer && !s2.discard_buffer && !s2.new_analysis_session
        }),
        ({
            let cleared = CallbackMemory { buffer_cleared_for_seek: true, ..m };
            !start_step(cleared, track_change, m.observed_seek_generation).1.discard_buffer
        }),
{
}

} // verus!

verus! {

/// An operation that can decide how a session ends.
#[derive(Clone, Copy, Debug, PartialEq, Eq, Structural)]
pub enum OutcomeOp {
    Stop,
    ClaimCompletion,
    ClaimFailure,
}

/// One outcome operation: the state after it, and whether it returned `true`.
pub open spec fn apply_outcome_op(s: ControlState, op: OutcomeOp) -> (ControlState, bool) {
    match op {
        OutcomeOp::Stop => (stop_step(s), false),
        OutcomeOp::ClaimCompletion => claim_step(s, Terminal::Completed),
        OutcomeOp::ClaimFailure => claim_step(s, Terminal::Failed),
    }
}

/// A sequence of outcome operations, in order: the final state and what
/// each operation returned.
pub open spec fn run_outcome_ops(s: ControlState, ops: Seq<OutcomeOp>) -> (ControlState, Seq<bool>)
    decreases ops.len(),
{
    if ops.len() == 0 {
        (s, Seq::empty())
    } else {
        let (t, returned) = run_outcome_ops(s, ops.drop_last());
        let (u, r) = apply_outcome_op(t, ops.last());
        (u, returned.push(r))
    }
}

/// Over any sequence of stops and claims (in whatever order the worker and
/// the owner happen to make them): at most one claim succeeds; none
/// succeeds after a stop or on a session that already ended; an ended
/// session keeps its outcome and is stopped; and the session is completed
/// exactly when it was, or a completion claim succeeded.
pub proof fn law_outcome_settled_once(s: ControlState, ops: Seq<OutcomeOp>)
    requires
        control_wf(s),
    ensures
        run_outcome_ops(s, ops).1.len() == ops.len(),
        forall|i: int, j: int|
            #![trigger run_outcome_ops(s, ops).1[i], run_outcome_ops(s, ops).1[j]]
            0 <= i < j < ops.len() ==> !(run_outcome_ops(s, ops).1[i] && run_outcome_ops(s, ops).1[j]),
        forall|i: int, j: int|
            #![trigger run_outcome_ops(s, ops).1[i], ops[j]]
            0 <= j < i < ops.len() && ops[j] == OutcomeOp::Stop ==> !run_outcome_ops(s, ops).1[i],
        s.terminal != Terminal::Active ==> run_outcome_ops(s, ops).0.terminal == s.terminal,
        s.terminal != Terminal::Active ==> forall|i: int|
            0 <= i < ops.len() ==> !#[trigger] run_outcome_ops(s, ops).1[i],
        run_outcome_ops(s, ops).0.terminal == Terminal::Active ==> forall|i: int|
            0 <= i < ops.len() ==> !#[trigger] run_outcome_ops(s, ops).1[i] && ops[i] != OutcomeOp::Stop,
        run_outcome_ops(s, ops).0.terminal == Terminal::Completed <==> (s.terminal == Terminal::Completed
            || exists|i: int|
            0 <= i < ops.len() && #[trigger] run_outcome_ops(s, ops).1[i] && ops[i] == OutcomeOp::ClaimCompletion),
        control_wf(run_outcome_ops(s, ops).0),
    decreases ops.len(),
{
    if ops.len() > 0 {
        let prefix = ops.drop_last();
        law_outcome_settled_once(s, prefix);
        let (t, returned) = run_outcome_ops(s, prefix);
        let (u, r) = apply_outcome_op(t, ops.last());
        let all = returned.push(r);
        assert(run_outcome_ops(s, ops) == (u, all));
        assert forall|i: int| 0 <= i < prefix.len() implies #[trigger] ops[i] == prefix[i] && all[i] == returned[i] by {}
        if exists|i: int| 0 <= i < ops.len() && #[trigger] all[i] && ops[i] == OutcomeOp::ClaimCompletion {
            let i = choose|i: int| 0 <= i < ops.len() && #[trigger] all[i] && ops[i] == OutcomeOp::ClaimCompletion;
            if i < prefix.len() {
                assert(returned[i] && prefix[i] == OutcomeOp::ClaimCompletion);
                assert(t.terminal == Terminal::Completed);
            }
        }
        if u.terminal == Terminal::Completed && s.terminal != Terminal::Completed {
            if t.terminal != Terminal::Completed {
                assert(all[ops.len() - 1] && ops[ops.len() - 1] == OutcomeOp::ClaimCompletion);
            } else {
                let i = choose|i: int| 0 <= i < prefix.len() && #[trigger] returned[i] && prefix[i] == OutcomeOp::ClaimCompletion;
                assert(all[i] && ops[i] == OutcomeOp::ClaimCompletion);
            }
        }
        if s.terminal == Terminal::Completed {
            assert(t.terminal == Terminal::Completed);
            assert(u.terminal == Terminal::Completed);
        }
        assert(u.terminal == Terminal::Completed <==> (s.terminal == Terminal::Completed || exists|i: int|
            0 <= i < ops.len() && #[trigger] all[i] && ops[i] == OutcomeOp::ClaimCompletion));
        let ran = run_outcome_ops(s, ops).1;
        assert(ran == all);
        if exists|i: int| 0 <= i < ops.len() && #[trigger] all[i] && ops[i] == OutcomeOp::ClaimCompletion {
            let i = choose|i: int| 0 <= i < ops.len() && #[trigger] all[i] && ops[i] == OutcomeOp::ClaimCompletion;
            assert(run_outcome_ops(s, ops).1[i]);
        }
        if exists|i: int| 0 <= i < ops.len() && #[trigger] run_outcome_ops(s, ops).1[i] && ops[i] == OutcomeOp::ClaimCompletion {
            let i = choose|i: int| 0 <= i < ops.len() && #[trigger] run_outcome_ops(s, ops).1[i] && ops[i] == OutcomeOp::ClaimCompletion;
            assert(all[i]);
        }
    } else {
        assert(run_outcome_ops(s, ops) == (s, Seq::<bool>::empty()));
    }
}

/// The event an outcome operation sends when it returned `claimed`: a
/// successful completion claim sends the completion event, a successful
/// failure claim the failure event, anything else nothing.
pub open spec fn op_event(op: OutcomeOp, claimed: bool) -> Option<PlaybackEvent> {
    if !claimed {
        None
    } else {
        match op {
            OutcomeOp::ClaimCompletion => Some(PlaybackEvent::Completed),
            OutcomeOp::ClaimFailure => Some(PlaybackEvent::Failed),
            OutcomeOp::Stop => None,
        }
    }
}

impl PlaybackControl {
    /// Claims completion and names the event the worker sends for it: the
    /// completion event exactly when this claim settled the session.
    pub fn settle_completion(&mut self) -> (event: Option<PlaybackEvent>)
        requires
            control_wf(old(self)@),
        ensures
            control_wf(final(self)@),
            ({
                let (t, claimed) = claim_step(old(self)@, Terminal::Completed);
                final(self)@ == t && event == op_event(OutcomeOp::ClaimCompletion, claimed)
            }),
    {
        if self.claim_completion() {
            Some(PlaybackEvent::Completed)
        } else {
            None
        }
    }

    /// Claims failure and names the event the worker sends for it: the
    /// failure event exactly when this claim settled the session.
    pub fn settle_failure(&mut self) -> (event: Option<PlaybackEvent>)
        requires
            control_wf(old(self)@),
        ensures
            control_wf(final(self)@),
            ({
                let (t, claimed) = claim_step(old(self)@, Terminal::Failed);
                final(self)@ == t && event == op_event(OutcomeOp::ClaimFailure, claimed)
            }),
    {
        if self.claim_failure() {
            Some(PlaybackEvent::Failed)
        } else {
            None
        }
    }
}

/// Over any sequence of stops and settling claims, the events sent form at
/// most one terminal event: no two operations send one, none is sent after
/// a stop or for a session that had already ended, and a completion event
/// is sent exactly when a completion claim settled an active session.
pub proof fn law_one_terminal_event(s: ControlState, ops: Seq<OutcomeOp>)
    requires
        control_wf(s),
    ensures
        forall|i: int, j: int|
            #![trigger op_event(ops[i], run_outcome_ops(s, ops).1[i]), op_event(ops[j], run_outcome_ops(s, ops).1[j])]
            0 <= i < j < ops.len() ==> !(op_event(ops[i], run_outcome_ops(s, ops).1[i]) is Some && op_event(
                ops[j],
                run_outcome_ops(s, ops).1[j],
            ) is Some),
        forall|i: int, j: int|
            #![trigger op_event(ops[i], run_outcome_ops(s, ops).1[i]), ops[j]]
            0 <= j < i < ops.len() && ops[j] == OutcomeOp::Stop ==> op_event(ops[i], run_outcome_ops(s, ops).1[i]) is None,
        s.terminal != Terminal::Active ==> forall|i: int|
            0 <= i < ops.len() ==> #[trigger] op_event(ops[i], run_outcome_ops(s, ops).1[i]) is None,
        s.terminal == Terminal::Active ==> ((exists|i: int|
            0 <= i < ops.len() && #[trigger] op_event(ops[i], run_outcome_ops(s, ops).1[i]) == Some(PlaybackEvent::Completed))
            <==> run_outcome_ops(s, ops).0.terminal == Terminal::Completed),
{
    law_outcome_settled_once(s, ops);
    let returned = run_outcome_ops(s, ops).1;
    assert forall|i: int, j: int| 0 <= i < j < ops.len() implies !(op_event(ops[i], returned[i]) is Some && op_event(
        ops[j],
        returned[j],
    ) is Some) by {
        assert(!(returned[i] && returned[j]));
    }
    assert forall|i: int, j: int| 0 <= j < i < ops.len() && ops[j] == OutcomeOp::Stop implies op_event(ops[i], returned[i]) is None by {
        assert(!returned[i]);
    }
    if s.terminal != Terminal::Active {
        assert forall|i: int| 0 <= i < ops.len() implies #[trigger] op_event(ops[i], returned[i]) is None by {
            assert(!returned[i]);
        }
    } else {
        if exists|i: int| 0 <= i < ops.len() && #[trigger] op_event(ops[i], returned[i]) == Some(PlaybackEvent::Completed) {
            let i = choose|i: int| 0 <= i < ops.len() && #[trigger] op_event(ops[i], returned[i]) == Some(PlaybackEvent::Completed);
            assert(returned[i] && ops[i] == OutcomeOp::ClaimCompletion);
        }
        if run_outcome_ops(s, ops).0.terminal == Terminal::Completed {
            let i = choose|i: int| 0 <= i < ops.len() && #[trigger] returned[i] && ops[i] == OutcomeOp::ClaimCompletion;
            assert(op_event(ops[i], returned[i]) == Some(PlaybackEvent::Completed));
        }
    }
}

} // verus!
