//! Start/stop state of the standalone recorder.
//!
//! The recorder holds a flag that says whether recording is on, shared with the
//! capture workers, and the handle of the worker it launched last. Starting
//! turns the flag on and launches a new worker; stopping turns it off and joins
//! the worker; a worker that ends on its own turns the flag off.
use vstd::prelude::*;

verus! {

/// Abstract state of a recorder.
pub struct RecorderState {
    /// Recording is on.
    pub recording: bool,
    /// A worker was launched and has not been joined yet.
    pub has_worker: bool,
}

/// A recorder that has never been started.
pub open spec fn spec_idle() -> RecorderState {
    RecorderState { recording: false, has_worker: false }
}

/// State after a start: recording is on and a fresh worker runs. A worker
/// launched earlier and not joined is let go.
pub open spec fn spec_started(s: RecorderState) -> RecorderState {
    RecorderState { recording: true, has_worker: true }
}

/// State after a stop: recording is off and the worker, if any, was joined.
pub open spec fn spec_stopped(s: RecorderState) -> RecorderState {
    RecorderState { recording: false, has_worker: false }
}

/// State after the worker's loop ended on its own: recording is off, and the
/// worker is still to be joined by the next stop.
pub open spec fn spec_worker_exited(s: RecorderState) -> RecorderState {
    RecorderState { recording: false, has_worker: s.has_worker }
}

/// Standalone screen recorder: records the primary display and the system
/// audio into a file, without a remote connection.
pub struct StandaloneRecorder {
    recording: bool,
    has_worker: bool,
}

impl View for StandaloneRecorder {
    type V = RecorderState;

    closed spec fn view(&self) -> RecorderState {
        RecorderState { recording: self.recording, has_worker: self.has_worker }
    }
}

impl Default for StandaloneRecorder {
    fn default() -> (r: Self)
        ensures
            r@ == spec_idle(),
    {
        StandaloneRecorder { recording: false, has_worker: false }
    }
}

impl StandaloneRecorder {
    /// A recorder that is not recording and has no worker.
    pub fn new() -> (r: Self)
        ensures
            r@ == spec_idle(),
    {
        StandaloneRecorder { recording: false, has_worker: false }
    }

    /// Start recording the primary display: turns recording on and launches a
    /// new worker (the caller runs it). Starting never fails.
    pub fn start(&mut self)
        ensures
            final(self)@ == spec_started(old(self)@),
    {
        self.recording = true;
        self.has_worker = true;
    }

    /// Stop recording: turns recording off, and returns whether there is a
    /// worker that the caller must now join.
    pub fn stop(&mut self) -> (join_worker: bool)
        ensures
            join_worker == old(self)@.has_worker,
            final(self)@ == spec_stopped(old(self)@),
    {
        self.recording = false;
        let join_worker = self.has_worker;
        self.has_worker = false;
        join_worker
    }

    /// Whether recording is on.
    pub fn is_recording(&self) -> (b: bool)
        ensures
            b == self@.recording,
    {
        self.recording
    }

    /// Whether a worker is waiting to be joined.
    pub fn has_worker(&self) -> (b: bool)
        ensures
            b == self@.has_worker,
    {
        self.has_worker
    }

    /// Called by a worker whose recording loop has ended, for whatever reason:
    /// recording is off from then on.
    pub fn worker_exited(&mut self)
        ensures
            final(self)@ == spec_worker_exited(old(self)@),
    {
        self.recording = false;
    }
}

/// Start standalone recording on the shared recorder, given as `None` where
/// its lock could not be taken. Returns whether recording was started, in which
/// case the caller launches the worker.
pub fn start_standalone_recording(recorder: Option<&mut StandaloneRecorder>) -> (started: bool)
    ensures
        started == (recorder is Some),
        recorder matches Some(r) ==> final(r)@ == spec_started((*r)@),
{
    match recorder {
        Some(r) => {
            r.start();
            true
        },
        None => false,
    }
}

/// Stop standalone recording on the shared recorder, given as `None` where its
/// lock could not be taken, in which case nothing happens. Returns whether the
/// caller must join a worker.
pub fn stop_standalone_recording(recorder: Option<&mut StandaloneRecorder>) -> (join_worker: bool)
    ensures
        recorder is None ==> !join_worker,
        recorder matches Some(r) ==> join_worker == (*r)@.has_worker && final(r)@
            == spec_stopped((*r)@),
{
    match recorder {
        Some(r) => r.stop(),
        None => false,
    }
}

/// Whether standalone recording is active on the shared recorder, given as
/// `None` where its lock could not be taken, which reads as not recording.
pub fn is_standalone_recording(recorder: Option<&StandaloneRecorder>) -> (b: bool)
    ensures
        b == (recorder matches Some(r) && r@.recording),
{
    match recorder {
        Some(r) => r.is_recording(),
        None => false,
    }
}

/// A started recorder is recording, with a worker to join, whatever its state
/// before.
pub proof fn lemma_start_records(s: RecorderState)
    ensures
        spec_started(s).recording,
        spec_started(s).has_worker,
{
}

/// Stopping ends recording and leaves no worker behind; a second stop changes
/// nothing and joins nothing.
pub proof fn lemma_stop_idempotent(s: RecorderState)
    ensures
        !spec_stopped(s).recording,
        !spec_stopped(s).has_worker,
        spec_stopped(spec_stopped(s)) == spec_stopped(s),
{
}

/// Starting then stopping brings any recorder back to the state of one that
/// was never started, and the stop joins the worker that the start launched.
pub proof fn lemma_start_then_stop(s: RecorderState)
    ensures
        spec_stopped(spec_started(s)) == spec_idle(),
        spec_started(s).has_worker,
{
}

/// A worker that ends on its own turns recording off but leaves itself to be
/// joined: a later stop still joins it.
pub proof fn lemma_worker_exit_keeps_join(s: RecorderState)
    ensures
        !spec_worker_exited(s).recording,
        spec_worker_exited(s).has_worker == s.has_worker,
        spec_stopped(spec_worker_exited(s)) == spec_stopped(s),
{
}

} // verus!
