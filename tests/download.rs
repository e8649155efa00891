use spotify_dl::download::{
    DownloadOptions, Failure, PipelineAction, PipelineInput, PipelinePhase, TrackPipeline, TrackQueue,
};
use spotify_dl::encoder::{EncodeError, EncodedStream, Format};
use spotify_dl::stream::{StreamError, StreamEvent};

fn write(content: Vec<i32>, bytes: usize) -> PipelineInput {
    PipelineInput::Stream(StreamEvent::Write { bytes, total: 1000, content })
}

/// Drives one pipeline through a whole download; `stream_fails` makes the
/// stream end in an error. Returns whether a file was written.
fn run_track(stream_fails: bool) -> (bool, PipelinePhase) {
    let mut p = TrackPipeline::new(false);
    let mut wrote = false;
    assert!(matches!(p.step(PipelineInput::OutputExists(false)), PipelineAction::StartStream));
    p.step(write(vec![1, 2], 8));
    if stream_fails {
        let a = p.step(PipelineInput::Stream(StreamEvent::Error(StreamError::LoadError("t".to_string()))));
        assert!(matches!(a, PipelineAction::Fail(Failure::Stream(_))));
        for input in [PipelineInput::Encoded(Ok(EncodedStream::new(vec![1]))), PipelineInput::Written(true)] {
            if let PipelineAction::WriteFile(_) = p.step(input) {
                wrote = true;
            }
        }
        return (wrote, p.phase());
    }
    match p.step(PipelineInput::Stream(StreamEvent::Finished)) {
        PipelineAction::Encode(s) => assert_eq!(s.samples, vec![1, 2]),
        _ => panic!("expected encode"),
    }
    if let PipelineAction::WriteFile(s) = p.step(PipelineInput::Encoded(Ok(EncodedStream::new(vec![4, 5])))) {
        assert_eq!(s.stream, vec![4, 5]);
        wrote = true;
    }
    assert!(matches!(p.step(PipelineInput::Written(true)), PipelineAction::WriteTags));
    assert!(matches!(p.step(PipelineInput::Tagged(true)), PipelineAction::Complete));
    (wrote, p.phase())
}

#[test]
fn one_failing_track_does_not_affect_others() {
    let results: Vec<(bool, PipelinePhase)> = vec![run_track(false), run_track(true), run_track(false)];
    assert_eq!(results[0], (true, PipelinePhase::Completed));
    assert_eq!(results[1], (false, PipelinePhase::Failed));
    assert_eq!(results[2], (true, PipelinePhase::Completed));
}

#[test]
fn existing_output_is_skipped_without_force() {
    let mut p = TrackPipeline::new(false);
    assert!(matches!(p.step(PipelineInput::OutputExists(true)), PipelineAction::Skip));
    assert!(matches!(p.step(write(vec![1], 4)), PipelineAction::Nothing));
    assert!(matches!(p.step(PipelineInput::Stream(StreamEvent::Finished)), PipelineAction::Nothing));
    assert!(matches!(p.step(PipelineInput::Encoded(Ok(EncodedStream::new(vec![])))), PipelineAction::Nothing));
    assert_eq!(p.phase(), PipelinePhase::Skipped);
}

#[test]
fn existing_output_is_regenerated_with_force() {
    let mut p = TrackPipeline::new(true);
    assert!(matches!(p.step(PipelineInput::OutputExists(true)), PipelineAction::StartStream));
    assert_eq!(p.phase(), PipelinePhase::Streaming);
}

#[test]
fn buffer_is_the_concatenation_of_writes() {
    let mut p = TrackPipeline::new(false);
    p.step(PipelineInput::OutputExists(false));
    match p.step(write(vec![1, 2, 3], 12)) {
        PipelineAction::Progress { position } => assert_eq!(position, 12),
        _ => panic!("expected progress"),
    }
    match p.step(PipelineInput::Stream(StreamEvent::Retry { attempt: 1, max_attempts: 3 })) {
        PipelineAction::RetryNotice { attempt, max_attempts } => assert_eq!((attempt, max_attempts), (1, 3)),
        _ => panic!("expected a retry notice"),
    }
    p.step(write(vec![], 12));
    p.step(write(vec![4, 5], 20));
    match p.step(PipelineInput::Stream(StreamEvent::Finished)) {
        PipelineAction::Encode(s) => {
            assert_eq!(s.samples, vec![1, 2, 3, 4, 5]);
            assert_eq!(s.samples.len() * 4, 20);
            assert_eq!((s.sample_rate, s.channels, s.bits_per_sample), (44100, 2, 16));
        }
        _ => panic!("expected encode"),
    }
    assert_eq!(p.phase(), PipelinePhase::Encoding);
}

#[test]
fn every_failure_kind_ends_the_track() {
    let mut p = TrackPipeline::new(false);
    p.step(PipelineInput::OutputExists(false));
    assert!(matches!(p.step(PipelineInput::StreamClosed), PipelineAction::Fail(Failure::StreamEnded)));

    let mut p = TrackPipeline::new(false);
    p.step(PipelineInput::OutputExists(false));
    p.step(PipelineInput::Stream(StreamEvent::Finished));
    assert!(matches!(
        p.step(PipelineInput::Encoded(Err(EncodeError::Codec))),
        PipelineAction::Fail(Failure::Encode(EncodeError::Codec))
    ));

    let mut p = TrackPipeline::new(false);
    p.step(PipelineInput::OutputExists(false));
    p.step(PipelineInput::Stream(StreamEvent::Finished));
    p.step(PipelineInput::Encoded(Ok(EncodedStream::new(vec![]))));
    assert!(matches!(p.step(PipelineInput::Written(false)), PipelineAction::Discard(Failure::Write)));

    let mut p = TrackPipeline::new(false);
    p.step(PipelineInput::OutputExists(false));
    p.step(PipelineInput::Stream(StreamEvent::Finished));
    p.step(PipelineInput::Encoded(Ok(EncodedStream::new(vec![]))));
    p.step(PipelineInput::Written(true));
    assert!(matches!(p.step(PipelineInput::Tagged(false)), PipelineAction::Discard(Failure::Tag)));
    assert_eq!(p.phase(), PipelinePhase::Failed);
}

#[test]
fn queue_respects_the_parallel_bound() {
    let mut q = TrackQueue::new(5, 2);
    let mut started = Vec::new();
    let mut max_running = 0;
    while !q.is_drained() {
        while let Some(i) = q.start_next() {
            started.push(i);
            max_running = max_running.max(q.running_count());
        }
        assert!(q.running_count() <= 2);
        q.finish_one();
    }
    assert_eq!(started, vec![0, 1, 2, 3, 4]);
    assert_eq!(max_running, 2);
}

#[test]
fn queue_with_fewer_tracks_than_slots() {
    let mut q = TrackQueue::new(1, 5);
    assert_eq!(q.start_next(), Some(0));
    assert_eq!(q.start_next(), None);
    q.finish_one();
    assert!(q.is_drained());
}

#[test]
fn options_keep_their_values() {
    let o = DownloadOptions::new("/music".to_string(), 5, Format::Flac, false);
    assert_eq!(o.destination, "/music");
    assert_eq!(o.parallel, 5);
    assert_eq!(o.format, Format::Flac);
    assert!(!o.force);
}

#[test]
fn failure_messages() {
    assert_eq!(Failure::Stream(StreamError::LoadError("x".to_string())).message(), "Failed to load track: x");
    assert_eq!(Failure::Stream(StreamError::Unknown).message(), "Unknown error occurred");
    assert_eq!(Failure::StreamEnded.message(), "The stream ended before the track did");
    assert_eq!(Failure::Encode(EncodeError::Codec).message(), "Failed to encode the track");
    assert_eq!(Failure::Write.message(), "Failed to write the file");
    assert_eq!(Failure::Tag.message(), "Failed to write the tags");
}
