use vstd::prelude::*;

use crate::encoder::{EncodeError, EncodedStream, Format, Samples, BITS_PER_SAMPLE, CHANNELS, SAMPLE_RATE};
use crate::stream::{ErrorView, EventView, StreamError, StreamEvent};

verus! {

/// Where and how tracks are downloaded: shared read-only by every pipeline.
pub struct DownloadOptions {
    pub destination: String,
    pub parallel: usize,
    pub format: Format,
    pub force: bool,
}

impl DownloadOptions {
    pub fn new(destination: String, parallel: usize, format: Format, force: bool) -> (r: DownloadOptions)
        ensures
            r.destination@ == destination@,
            r.parallel == parallel,
            r.format == format,
            r.force == force,
    {
        DownloadOptions { destination, parallel, format, force }
    }
}

/// Admission control over a list of tracks: hands out their indices in
/// order, never letting more than `limit` run at once.
pub struct TrackQueue {
    total: usize,
    next: usize,
    running: usize,
    limit: usize,
}

impl TrackQueue {
    pub closed spec fn total(&self) -> nat {
        self.total as nat
    }

    pub closed spec fn started(&self) -> nat {
        self.next as nat
    }

    pub closed spec fn running(&self) -> nat {
        self.running as nat
    }

    pub closed spec fn limit(&self) -> nat {
        self.limit as nat
    }

    /// Never more tracks running than the limit, nor more than were started.
    pub closed spec fn wf(&self) -> bool {
        &&& self.next <= self.total
        &&& self.running <= self.next
        &&& self.running <= self.limit
        &&& self.limit > 0
    }

    /// A queue over `total` tracks with at most `limit` running at once.
    pub fn new(total: usize, limit: usize) -> (r: TrackQueue)
        requires
            limit > 0,
        ensures
            r.wf(),
            r.total() == total,
            r.limit() == limit,
            r.started() == 0,
            r.running() == 0,
    {
        TrackQueue { total, next: 0, running: 0, limit }
    }

    /// The index of the next track to run, if one is waiting and a slot is
    /// free; the track then counts as running.
    pub fn start_next(&mut self) -> (r: Option<usize>)
        requires
            old(self).wf(),
        ensures
            final(self).wf(),
            final(self).total() == old(self).total(),
            final(self).limit() == old(self).limit(),
            (old(self).started() < old(self).total() && old(self).running() < old(self).limit())
                ==> r == Some(old(self).started() as usize) && final(self).started() == old(self).started()
                + 1 && final(self).running() == old(self).running() + 1,
            !(old(self).started() < old(self).total() && old(self).running() < old(self).limit())
                ==> r is None && final(self).started() == old(self).started() && final(self).running()
                == old(self).running(),
    {
        if self.next < self.total && self.running < self.limit {
            let i = self.next;
            self.next = self.next + 1;
            self.running = self.running + 1;
            Some(i)
        } else {
            None
        }
    }

    /// Frees the slot of a track that ended, whatever its outcome.
    pub fn finish_one(&mut self)
        requires
            old(self).wf(),
            old(self).running() > 0,
        ensures
            final(self).wf(),
            final(self).total() == old(self).total(),
            final(self).limit() == old(self).limit(),
            final(self).started() == old(self).started(),
            final(self).running() == old(self).running() - 1,
    {
        self.running = self.running - 1;
    }

    /// Whether every track was started and every one has ended.
    pub fn is_drained(&self) -> (r: bool)
        requires
            self.wf(),
        ensures
            r == (self.started() == self.total() && self.running() == 0),
    {
        self.next == self.total && self.running == 0
    }

    /// How many tracks run now.
    pub fn running_count(&self) -> (r: usize)
        ensures
            r == self.running(),
    {
        self.running
    }
}

/// However a queue is used, no more tracks run at once than its limit.
pub proof fn lemma_concurrency_bounded(q: TrackQueue)
    requires
        q.wf(),
    ensures
        q.running() <= q.limit(),
{
}

} // verus!

verus! {

/// Where a track's pipeline stands.
#[derive(Debug, Clone, Copy, PartialEq, Eq, Structural)]
pub enum PipelinePhase {
    Checking,
    Streaming,
    Encoding,
    Writing,
    Tagging,
    Completed,
    Skipped,
    Failed,
}

/// Why a track failed.
pub enum Failure {
    Stream(StreamError),
    StreamEnded,
    Encode(EncodeError),
    Write,
    Tag,
}

/// What happens to a track's pipeline.
pub enum PipelineInput {
    OutputExists(bool),
    Stream(StreamEvent),
    StreamClosed,
    Encoded(Result<EncodedStream, EncodeError>),
    Written(bool),
    Tagged(bool),
}

impl Failure {
    /// The error text shown on the track's failed progress line.
    pub fn message(&self) -> (r: String)
        ensures
            self@ matches FailureView::Stream(ErrorView::LoadError(t)) ==> r@ == crate::stream::load_error_text(t),
            self@ == FailureView::Stream(ErrorView::Unknown) ==> r@ == "Unknown error occurred"@,
            self is StreamEnded ==> r@ == "The stream ended before the track did"@,
            self is Encode ==> r@ == "Failed to encode the track"@,
            self is Write ==> r@ == "Failed to write the file"@,
            self is Tag ==> r@ == "Failed to write the tags"@,
    {
        match self {
            Failure::Stream(e) => e.message(),
            Failure::StreamEnded => String::from_str("The stream ended before the track did"),
            Failure::Encode(_) => String::from_str("Failed to encode the track"),
            Failure::Write => String::from_str("Failed to write the file"),
            Failure::Tag => String::from_str("Failed to write the tags"),
        }
    }
}

/// What the pipeline asks its driver to do.
pub enum PipelineAction {
    Nothing,
    Skip,
    StartStream,
    Progress { position: usize },
    RetryNotice { attempt: usize, max_attempts: usize },
    Encode(Samples),
    WriteFile(EncodedStream),
    WriteTags,
    Complete,
    Fail(Failure),
    /// Remove the file written for the track, then report the failure.
    Discard(Failure),
}

pub enum FailureView {
    Stream(ErrorView),
    StreamEnded,
    Encode(EncodeError),
    Write,
    Tag,
}

pub enum PipelineInputView {
    OutputExists(bool),
    Stream(EventView),
    StreamClosed,
    Encoded(Result<Seq<u8>, EncodeError>),
    Written(bool),
    Tagged(bool),
}

pub enum ActionView {
    Nothing,
    Skip,
    StartStream,
    Progress(usize),
    RetryNotice(usize, usize),
    Encode(Seq<i32>, u32, u32, u32),
    WriteFile(Seq<u8>),
    WriteTags,
    Complete,
    Fail(FailureView),
    Discard(FailureView),
}

impl View for Failure {
    type V = FailureView;

    open spec fn view(&self) -> FailureView {
        match self {
            Failure::Stream(e) => FailureView::Stream(e@),
            Failure::StreamEnded => FailureView::StreamEnded,
            Failure::Encode(e) => FailureView::Encode(*e),
            Failure::Write => FailureView::Write,
            Failure::Tag => FailureView::Tag,
        }
    }
}

impl View for PipelineInput {
    type V = PipelineInputView;

    open spec fn view(&self) -> PipelineInputView {
        match self {
            PipelineInput::OutputExists(b) => PipelineInputView::OutputExists(*b),
            PipelineInput::Stream(e) => PipelineInputView::Stream(e@),
            PipelineInput::StreamClosed => PipelineInputView::StreamClosed,
            PipelineInput::Encoded(Ok(s)) => PipelineInputView::Encoded(Ok(s.stream@)),
            PipelineInput::Encoded(Err(e)) => PipelineInputView::Encoded(Err(*e)),
            PipelineInput::Written(b) => PipelineInputView::Written(*b),
            PipelineInput::Tagged(b) => PipelineInputView::Tagged(*b),
        }
    }
}

impl View for PipelineAction {
    type V = ActionView;

    open spec fn view(&self) -> ActionView {
        match self {
            PipelineAction::Nothing => ActionView::Nothing,
            PipelineAction::Skip => ActionView::Skip,
            PipelineAction::StartStream => ActionView::StartStream,
            PipelineAction::Progress { position } => ActionView::Progress(*position),
            PipelineAction::RetryNotice { attempt, max_attempts } => ActionView::RetryNotice(
                *attempt,
                *max_attempts,
            ),
            PipelineAction::Encode(s) => ActionView::Encode(
                s.samples@,
                s.sample_rate,
                s.channels,
                s.bits_per_sample,
            ),
            PipelineAction::WriteFile(s) => ActionView::WriteFile(s.stream@),
            PipelineAction::WriteTags => ActionView::WriteTags,
            PipelineAction::Complete => ActionView::Complete,
            PipelineAction::Fail(f) => ActionView::Fail(f@),
            PipelineAction::Discard(f) => ActionView::Discard(f@),
        }
    }
}

/// The mathematical state of a pipeline: its phase and the samples buffered.
pub struct PipelineView {
    pub phase: PipelinePhase,
    pub samples: Seq<i32>,
}

pub open spec fn initial_pipeline() -> PipelineView {
    PipelineView { phase: PipelinePhase::Checking, samples: seq![] }
}

pub open spec fn moved(s: PipelineView, phase: PipelinePhase, a: ActionView) -> (PipelineView, ActionView) {
    (PipelineView { phase, samples: s.samples }, a)
}

/// One step of a track's pipeline.
pub open spec fn pipeline_step(force: bool, s: PipelineView, i: PipelineInputView) -> (PipelineView, ActionView) {
    match s.phase {
        PipelinePhase::Checking => match i {
            PipelineInputView::OutputExists(exists) => if exists && !force {
                moved(s, PipelinePhase::Skipped, ActionView::Skip)
            } else {
                moved(s, PipelinePhase::Streaming, ActionView::StartStream)
            },
            _ => (s, ActionView::Nothing),
        },
        PipelinePhase::Streaming => match i {
            PipelineInputView::Stream(EventView::Write { bytes, total, content }) => (
                PipelineView { phase: s.phase, samples: s.samples + content },
                ActionView::Progress(bytes),
            ),
            PipelineInputView::Stream(EventView::Retry { attempt, max_attempts }) => (
                s,
                ActionView::RetryNotice(attempt, max_attempts),
            ),
            PipelineInputView::Stream(EventView::Finished) => (
                PipelineView { phase: PipelinePhase::Encoding, samples: seq![] },
                ActionView::Encode(s.samples, SAMPLE_RATE, CHANNELS, BITS_PER_SAMPLE),
            ),
            PipelineInputView::Stream(EventView::Error(e)) => moved(
                s,
                PipelinePhase::Failed,
                ActionView::Fail(FailureView::Stream(e)),
            ),
            PipelineInputView::StreamClosed => moved(
                s,
                PipelinePhase::Failed,
                ActionView::Fail(FailureView::StreamEnded),
            ),
            _ => (s, ActionView::Nothing),
        },
        PipelinePhase::Encoding => match i {
            PipelineInputView::Encoded(Ok(bytes)) => moved(s, PipelinePhase::Writing, ActionView::WriteFile(bytes)),
            PipelineInputView::Encoded(Err(e)) => moved(
                s,
                PipelinePhase::Failed,
                ActionView::Fail(FailureView::Encode(e)),
            ),
            _ => (s, ActionView::Nothing),
        },
        PipelinePhase::Writing => match i {
            PipelineInputView::Written(ok) => if ok {
                moved(s, PipelinePhase::Tagging, ActionView::WriteTags)
            } else {
                moved(s, PipelinePhase::Failed, ActionView::Discard(FailureView::Write))
            },
            _ => (s, ActionView::Nothing),
        },
        PipelinePhase::Tagging => match i {
            PipelineInputView::Tagged(ok) => if ok {
                moved(s, PipelinePhase::Completed, ActionView::Complete)
            } else {
                moved(s, PipelinePhase::Failed, ActionView::Discard(FailureView::Tag))
            },
            _ => (s, ActionView::Nothing),
        },
        _ => (s, ActionView::Nothing),
    }
}

/// The state reached and the actions asked for after a sequence of inputs.
pub open spec fn pipeline_run(force: bool, inputs: Seq<PipelineInputView>) -> (PipelineView, Seq<ActionView>)
    decreases inputs.len(),
{
    if inputs.len() == 0 {
        (initial_pipeline(), seq![])
    } else {
        let (s, acts) = pipeline_run(force, inputs.drop_last());
        let (s2, a) = pipeline_step(force, s, inputs.last());
        (s2, acts.push(a))
    }
}

/// The samples of the `Write` events, concatenated in order.
pub open spec fn written_samples(events: Seq<EventView>) -> Seq<i32>
    decreases events.len(),
{
    if events.len() == 0 {
        seq![]
    } else if events.last() is Write {
        written_samples(events.drop_last()) + events.last()->Write_content
    } else {
        written_samples(events.drop_last())
    }
}

/// The sum of the lengths of the `Write` events' samples.
pub open spec fn written_len(events: Seq<EventView>) -> nat
    decreases events.len(),
{
    if events.len() == 0 {
        0
    } else if events.last() is Write {
        written_len(events.drop_last()) + events.last()->Write_content.len()
    } else {
        written_len(events.drop_last())
    }
}

pub open spec fn is_file_write(a: ActionView) -> bool {
    a is WriteFile
}

pub open spec fn is_work(a: ActionView) -> bool {
    a is StartStream || a is Encode || a is WriteFile || a is WriteTags
}

/// The number of files written among the actions.
pub open spec fn file_writes(acts: Seq<ActionView>) -> nat
    decreases acts.len(),
{
    if acts.len() == 0 {
        0
    } else {
        file_writes(acts.drop_last()) + if is_file_write(acts.last()) {
            1nat
        } else {
            0nat
        }
    }
}

/// The files written and not removed again among the actions.
pub open spec fn files_kept(acts: Seq<ActionView>) -> int
    decreases acts.len(),
{
    if acts.len() == 0 {
        0
    } else {
        files_kept(acts.drop_last()) + if is_file_write(acts.last()) {
            1int
        } else if acts.last() is Discard {
            -1int
        } else {
            0int
        }
    }
}

pub open spec fn stream_inputs(events: Seq<EventView>) -> Seq<PipelineInputView> {
    events.map_values(|e: EventView| PipelineInputView::Stream(e))
}

proof fn lemma_written_len(events: Seq<EventView>)
    ensures
        written_samples(events).len() == written_len(events),
    decreases events.len(),
{
    if events.len() > 0 {
        lemma_written_len(events.drop_last());
    }
}

proof fn lemma_streaming_buffers(force: bool, events: Seq<EventView>)
    requires
        forall|i: int| 0 <= i < events.len() ==> (#[trigger] events[i]) is Write || events[i] is Retry,
    ensures
        pipeline_run(force, seq![PipelineInputView::OutputExists(false)] + stream_inputs(events)).0
            == (PipelineView { phase: PipelinePhase::Streaming, samples: written_samples(events) }),
    decreases events.len(),
{
    let head = seq![PipelineInputView::OutputExists(false)];
    if events.len() == 0 {
        assert(head + stream_inputs(events) =~= head);
        assert(head.drop_last() =~= seq![]);
        assert(pipeline_run(force, head.drop_last()) == (initial_pipeline(), Seq::<ActionView>::empty()));
        assert(head.last() == PipelineInputView::OutputExists(false));
        assert(pipeline_run(force, head).0.phase == PipelinePhase::Streaming);
        assert(written_samples(events) =~= seq![]);
        assert(pipeline_run(force, head).0.samples =~= seq![]);
    } else {
        let prev = events.drop_last();
        assert forall|i: int| 0 <= i < prev.len() implies (#[trigger] prev[i]) is Write || prev[i] is Retry by {
            assert(prev[i] == events[i]);
        }
        lemma_streaming_buffers(force, prev);
        assert((head + stream_inputs(events)).drop_last() =~= head + stream_inputs(prev));
        assert((head + stream_inputs(events)).last() == PipelineInputView::Stream(events.last()));
        assert(events.last() == events[events.len() - 1]);
        let s = pipeline_run(force, head + stream_inputs(prev)).0;
        assert(pipeline_run(force, head + stream_inputs(events)).0 == pipeline_step(force, s, PipelineInputView::Stream(events.last())).0);
        if events.last() is Write {
            assert(written_samples(events) == written_samples(prev) + events.last()->Write_content);
        } else {
            assert(written_samples(events) == written_samples(prev));
        }
    }
}

/// After a successful stream whose relayed events were writes and retries,
/// the samples handed to the encoder are the writes' samples concatenated in
/// order, as many as the writes carried: none dropped, none repeated.
pub proof fn lemma_buffer_is_concatenation(force: bool, events: Seq<EventView>)
    requires
        forall|i: int| 0 <= i < events.len() ==> (#[trigger] events[i]) is Write || events[i] is Retry,
    ensures
        ({
            let inputs = seq![PipelineInputView::OutputExists(false)] + stream_inputs(events)
                + seq![PipelineInputView::Stream(EventView::Finished)];
            let (s, acts) = pipeline_run(force, inputs);
            &&& acts.last() == ActionView::Encode(written_samples(events), 44100, 2, 16)
            &&& written_samples(events).len() == written_len(events)
            &&& s.phase is Encoding
        }),
{
    let head = seq![PipelineInputView::OutputExists(false)] + stream_inputs(events);
    let inputs = head + seq![PipelineInputView::Stream(EventView::Finished)];
    lemma_streaming_buffers(force, events);
    lemma_written_len(events);
    assert(inputs.drop_last() =~= head);
}

/// Whether a failure of the stream is among the actions.
pub open spec fn has_stream_failure(acts: Seq<ActionView>) -> bool {
    exists|i: int| 0 <= i < acts.len() && (#[trigger] acts[i]) is Fail && (acts[i]->Fail_0 is Stream
        || acts[i]->Fail_0 is StreamEnded)
}

pub open spec fn has_failure(acts: Seq<ActionView>) -> bool {
    exists|i: int| 0 <= i < acts.len() && (#[trigger] acts[i]) is Fail
}

/// What holds of every reachable pipeline state and the actions asked so far.
pub open spec fn pipeline_invariant(s: PipelineView, acts: Seq<ActionView>) -> bool {
    &&& file_writes(acts) <= 1
    &&& (s.phase is Checking || s.phase is Streaming || s.phase is Encoding || s.phase is Skipped)
        ==> file_writes(acts) == 0 && files_kept(acts) == 0
    &&& (s.phase is Writing || s.phase is Tagging || s.phase is Completed) ==> file_writes(acts) == 1
        && files_kept(acts) == 1
    &&& s.phase is Failed ==> files_kept(acts) == 0
    &&& !(s.phase is Failed) ==> !has_failure(acts)
    &&& has_stream_failure(acts) ==> file_writes(acts) == 0
    &&& s.phase is Skipped ==> forall|i: int| 0 <= i < acts.len() ==> !is_work(#[trigger] acts[i])
    &&& s.phase is Checking ==> forall|i: int| 0 <= i < acts.len() ==> (#[trigger] acts[i]) is Nothing
}

proof fn lemma_pipeline_invariant(force: bool, inputs: Seq<PipelineInputView>)
    ensures
        pipeline_invariant(pipeline_run(force, inputs).0, pipeline_run(force, inputs).1),
        pipeline_run(force, inputs).1.len() == inputs.len(),
    decreases inputs.len(),
{
    if inputs.len() > 0 {
        lemma_pipeline_invariant(force, inputs.drop_last());
        let (s, acts) = pipeline_run(force, inputs.drop_last());
        let (s2, a) = pipeline_step(force, s, inputs.last());
        let acts2 = acts.push(a);
        assert(acts2.drop_last() =~= acts);
        assert(file_writes(acts2) == file_writes(acts) + if is_file_write(a) { 1nat } else { 0nat });
        assert(files_kept(acts2) == files_kept(acts) + if is_file_write(a) {
            1int
        } else if a is Discard {
            -1int
        } else {
            0int
        });
        assert forall|i: int| 0 <= i < acts.len() implies (#[trigger] acts2[i]) == acts[i] by {}
        assert(acts2[acts.len() as int] == a);
        if has_failure(acts2) && !(s2.phase is Failed) {
            let w = choose|i: int| 0 <= i < acts2.len() && (#[trigger] acts2[i]) is Fail;
            if w < acts.len() {
                assert(acts[w] is Fail);
            }
        }
        if has_stream_failure(acts2) {
            let w = choose|i: int| 0 <= i < acts2.len() && (#[trigger] acts2[i]) is Fail && (
            acts2[i]->Fail_0 is Stream || acts2[i]->Fail_0 is StreamEnded);
            if w < acts.len() {
                assert(acts[w] is Fail);
                assert(has_stream_failure(acts));
            }
        }
    } else {
        assert(file_writes(seq![]) == 0);
        assert(files_kept(seq![]) == 0);
    }
}

/// A pipeline writes at most one file, and only once the stream finished and
/// the encoder succeeded: a track whose stream failed writes none, nor does
/// one that was skipped or has not finished streaming and encoding. A track
/// that failed keeps no file, and a completed track keeps exactly one.
pub proof fn lemma_one_file_per_streamed_track(force: bool, inputs: Seq<PipelineInputView>)
    ensures
        ({
            let (s, acts) = pipeline_run(force, inputs);
            &&& file_writes(acts) <= 1
            &&& has_stream_failure(acts) ==> file_writes(acts) == 0
            &&& (s.phase is Checking || s.phase is Streaming || s.phase is Encoding || s.phase is Skipped)
                ==> file_writes(acts) == 0
            &&& s.phase is Failed ==> files_kept(acts) == 0
            &&& s.phase is Completed ==> file_writes(acts) == 1 && files_kept(acts) == 1
        }),
{
    lemma_pipeline_invariant(force, inputs);
}

proof fn lemma_first_action(force: bool, inputs: Seq<PipelineInputView>)
    requires
        inputs.len() > 0,
    ensures
        pipeline_run(force, inputs).1[0] == pipeline_step(force, initial_pipeline(), inputs[0]).1,
    decreases inputs.len(),
{
    lemma_pipeline_invariant(force, inputs.drop_last());
    if inputs.len() > 1 {
        lemma_first_action(force, inputs.drop_last());
        assert(inputs.drop_last()[0] == inputs[0]);
    } else {
        assert(inputs.drop_last() =~= seq![]);
    }
}

/// With the output file present and no forcing, the pipeline skips the track
/// and never streams, encodes or writes, whatever follows; with forcing it
/// streams the track again.
pub proof fn lemma_existing_output(force: bool, rest: Seq<PipelineInputView>)
    ensures
        ({
            let inputs = seq![PipelineInputView::OutputExists(true)] + rest;
            let (s, acts) = pipeline_run(force, inputs);
            &&& !force ==> forall|i: int| 0 <= i < acts.len() ==> !is_work(#[trigger] acts[i])
            &&& !force ==> s.phase is Skipped
            &&& force ==> acts[0] is StartStream
        }),
    decreases rest.len(),
{
    let inputs = seq![PipelineInputView::OutputExists(true)] + rest;
    lemma_pipeline_invariant(force, inputs);
    lemma_first_action(force, inputs);
    if rest.len() == 0 {
        assert(inputs.drop_last() =~= seq![]);
    } else {
        lemma_existing_output(force, rest.drop_last());
        assert(inputs.drop_last() =~= seq![PipelineInputView::OutputExists(true)] + rest.drop_last());
    }
}

/// With forcing, an existing output file changes nothing: the track is
/// streamed, encoded, written and tagged exactly as if no file were there.
pub proof fn lemma_force_regenerates(rest: Seq<PipelineInputView>)
    ensures
        pipeline_run(true, seq![PipelineInputView::OutputExists(true)] + rest) == pipeline_run(
            true,
            seq![PipelineInputView::OutputExists(false)] + rest,
        ),
    decreases rest.len(),
{
    let a = seq![PipelineInputView::OutputExists(true)] + rest;
    let b = seq![PipelineInputView::OutputExists(false)] + rest;
    if rest.len() == 0 {
        assert(a.drop_last() =~= seq![]);
        assert(b.drop_last() =~= seq![]);
    } else {
        lemma_force_regenerates(rest.drop_last());
        assert(a.drop_last() =~= seq![PipelineInputView::OutputExists(true)] + rest.drop_last());
        assert(b.drop_last() =~= seq![PipelineInputView::OutputExists(false)] + rest.drop_last());
        assert(a.last() == b.last());
    }
}

/// The outcome of every track's pipeline, each run on its own inputs.
pub open spec fn download_runs(force: bool, inputs: Seq<Seq<PipelineInputView>>) -> Seq<(PipelineView, Seq<ActionView>)> {
    inputs.map_values(|i: Seq<PipelineInputView>| pipeline_run(force, i))
}

/// Tracks do not affect one another: whatever happens to another track,
/// even a failed stream, a track's outcome stays the same, and a track
/// whose pipeline completes keeps exactly one file while a failed one
/// keeps none.
pub proof fn lemma_tracks_isolated(
    force: bool,
    inputs: Seq<Seq<PipelineInputView>>,
    i: int,
    j: int,
    other: Seq<PipelineInputView>,
)
    requires
        0 <= i < inputs.len(),
        0 <= j < inputs.len(),
        i != j,
    ensures
        download_runs(force, inputs.update(j, other))[i] == download_runs(force, inputs)[i],
        download_runs(force, inputs)[i].0.phase is Completed ==> files_kept(download_runs(force, inputs)[i].1)
            == 1,
        download_runs(force, inputs)[i].0.phase is Failed ==> files_kept(download_runs(force, inputs)[i].1)
            == 0,
{
    lemma_one_file_per_streamed_track(force, inputs[i]);
    assert(inputs.update(j, other)[i] == inputs[i]);
}

} // verus!

verus! {

/// The decisions of one track's download: whether to skip it, what to do
/// with each stream event, and the order encode, write, tag.
pub struct TrackPipeline {
    force: bool,
    phase: PipelinePhase,
    buffer: Vec<i32>,
}

impl View for TrackPipeline {
    type V = PipelineView;

    closed spec fn view(&self) -> PipelineView {
        PipelineView { phase: self.phase, samples: self.buffer@ }
    }
}

impl TrackPipeline {
    pub closed spec fn force(&self) -> bool {
        self.force
    }

    /// A pipeline about to check for an existing output file.
    pub fn new(force: bool) -> (r: TrackPipeline)
        ensures
            r@ == initial_pipeline(),
            r.force() == force,
    {
        let r = TrackPipeline { force, phase: PipelinePhase::Checking, buffer: Vec::new() };
        proof {
            assert(r.buffer@ =~= seq![]);
        }
        r
    }

    /// Where the pipeline stands.
    pub fn phase(&self) -> (r: PipelinePhase)
        ensures
            r == self@.phase,
    {
        self.phase
    }

    /// Takes one input and returns what to do next.
    pub fn step(&mut self, input: PipelineInput) -> (r: PipelineAction)
        ensures
            final(self).force() == old(self).force(),
            final(self)@ == pipeline_step(old(self).force(), old(self)@, input@).0,
            r@ == pipeline_step(old(self).force(), old(self)@, input@).1,
    {
        match self.phase {
            PipelinePhase::Checking => match input {
                PipelineInput::OutputExists(exists) => {
                    if exists && !self.force {
                        self.phase = PipelinePhase::Skipped;
                        PipelineAction::Skip
                    } else {
                        self.phase = PipelinePhase::Streaming;
                        PipelineAction::StartStream
                    }
                },
                _ => PipelineAction::Nothing,
            },
            PipelinePhase::Streaming => match input {
                PipelineInput::Stream(StreamEvent::Write { bytes, total, content }) => {
                    let mut content = content;
                    self.buffer.append(&mut content);
                    PipelineAction::Progress { position: bytes }
                },
                PipelineInput::Stream(StreamEvent::Retry { attempt, max_attempts }) => {
                    PipelineAction::RetryNotice { attempt, max_attempts }
                },
                PipelineInput::Stream(StreamEvent::Finished) => {
                    let mut samples: Vec<i32> = Vec::new();
                    std::mem::swap(&mut samples, &mut self.buffer);
                    self.phase = PipelinePhase::Encoding;
                    proof {
                        assert(self.buffer@ =~= seq![]);
                    }
                    PipelineAction::Encode(Samples::new(samples, SAMPLE_RATE, CHANNELS, BITS_PER_SAMPLE))
                },
                PipelineInput::Stream(StreamEvent::Error(e)) => {
                    self.phase = PipelinePhase::Failed;
                    PipelineAction::Fail(Failure::Stream(e))
                },
                PipelineInput::StreamClosed => {
                    self.phase = PipelinePhase::Failed;
                    PipelineAction::Fail(Failure::StreamEnded)
                },
                _ => PipelineAction::Nothing,
            },
            PipelinePhase::Encoding => match input {
                PipelineInput::Encoded(Ok(stream)) => {
                    self.phase = PipelinePhase::Writing;
                    PipelineAction::WriteFile(stream)
                },
                PipelineInput::Encoded(Err(e)) => {
                    self.phase = PipelinePhase::Failed;
                    PipelineAction::Fail(Failure::Encode(e))
                },
                _ => PipelineAction::Nothing,
            },
            PipelinePhase::Writing => match input {
                PipelineInput::Written(ok) => {
                    if ok {
                        self.phase = PipelinePhase::Tagging;
                        PipelineAction::WriteTags
                    } else {
                        self.phase = PipelinePhase::Failed;
                        PipelineAction::Discard(Failure::Write)
                    }
                },
                _ => PipelineAction::Nothing,
            },
            PipelinePhase::Tagging => match input {
                PipelineInput::Tagged(ok) => {
                    if ok {
                        self.phase = PipelinePhase::Completed;
                        PipelineAction::Complete
                    } else {
                        self.phase = PipelinePhase::Failed;
                        PipelineAction::Discard(Failure::Tag)
                    }
                },
                _ => PipelineAction::Nothing,
            },
            _ => PipelineAction::Nothing,
        }
    }
}

} // verus!
