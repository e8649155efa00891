use spotify_dl::stream::channel_sink::{convert_track_duration_to_size, ChannelSink, SinkEvent};
use spotify_dl::stream::session::{Command, PlayerSignal, RetryPolicy, SessionInput, StreamSession};
use spotify_dl::stream::{StreamError, StreamEvent};

fn write(content: Vec<i32>) -> SessionInput {
    SessionInput::Sink(SinkEvent::Write { bytes: content.len() * 4, total: 100, content })
}

#[test]
fn backoff_doubles_and_caps() {
    let p = RetryPolicy::standard();
    assert_eq!(p.next_backoff(0), 10_000);
    assert_eq!(p.next_backoff(1), 20_000);
    assert_eq!(p.next_backoff(2), 30_000);
    assert_eq!(p.next_backoff(60), 30_000);
    let q = RetryPolicy { max_attempts: 1, base_delay_ms: 50_000, max_delay_ms: 30_000 };
    assert_eq!(q.next_backoff(0), 30_000);
}

#[test]
fn unavailable_track_retries_then_fails() {
    let (mut s, first) = StreamSession::start(RetryPolicy::standard(), "track".to_string());
    assert!(first == Command::Load);
    let mut retries = Vec::new();
    let mut delays = Vec::new();
    let mut errors = 0;
    for _ in 0..10 {
        let step = s.step(SessionInput::Player(PlayerSignal::Unavailable));
        for e in step.events {
            match e {
                StreamEvent::Retry { attempt, max_attempts } => {
                    assert_eq!(max_attempts, 3);
                    retries.push(attempt);
                }
                StreamEvent::Error(StreamError::LoadError(t)) => {
                    assert_eq!(t, "track");
                    errors += 1;
                }
                _ => panic!("unexpected event"),
            }
        }
        if let Command::Wait { delay_ms } = step.command {
            delays.push(delay_ms);
            let next = s.step(SessionInput::BackoffElapsed);
            assert!(next.command == Command::Load);
        }
    }
    assert_eq!(retries, vec![1, 2, 3]);
    assert_eq!(delays, vec![10_000, 20_000, 30_000]);
    assert_eq!(errors, 1);
    assert!(s.is_done());
}

#[test]
fn successful_stream_relays_writes_in_order() {
    let (mut s, _) = StreamSession::start(RetryPolicy::standard(), "t".to_string());
    let mut out = Vec::new();
    out.extend(s.step(write(vec![1, 2])).events);
    out.extend(s.step(SessionInput::Player(PlayerSignal::Playing)).events);
    out.extend(s.step(write(vec![3])).events);
    out.extend(s.step(SessionInput::Player(PlayerSignal::EndOfTrack)).events);
    let last = s.step(SessionInput::Sink(SinkEvent::Finished));
    assert!(last.command == Command::Stop);
    out.extend(last.events);
    let mut samples = Vec::new();
    for e in &out[..out.len() - 1] {
        match e {
            StreamEvent::Write { content, .. } => samples.extend(content.iter().copied()),
            _ => panic!("only writes before the end"),
        }
    }
    assert_eq!(samples, vec![1, 2, 3]);
    assert!(matches!(out.last(), Some(StreamEvent::Finished)));
    assert!(s.step(write(vec![4])).events.is_empty());
}

#[test]
fn failed_attempt_writes_are_discarded() {
    let (mut s, _) = StreamSession::start(RetryPolicy::standard(), "t".to_string());
    assert!(s.step(write(vec![7, 7])).events.is_empty());
    let step = s.step(SessionInput::Player(PlayerSignal::Unavailable));
    assert_eq!(step.events.len(), 1);
    assert!(matches!(step.events[0], StreamEvent::Retry { attempt: 1, max_attempts: 3 }));
    assert!(s.step(write(vec![8])).events.is_empty());
    s.step(SessionInput::BackoffElapsed);
    s.step(write(vec![5]));
    let relayed = s.step(SessionInput::Player(PlayerSignal::TrackChanged)).events;
    assert_eq!(relayed.len(), 1);
    match &relayed[0] {
        StreamEvent::Write { content, .. } => assert_eq!(content, &vec![5]),
        _ => panic!("expected a write"),
    }
}

#[test]
fn finish_before_ready_ends_on_ready() {
    let (mut s, _) = StreamSession::start(RetryPolicy::standard(), "t".to_string());
    s.step(write(vec![1]));
    s.step(SessionInput::Sink(SinkEvent::Finished));
    let step = s.step(SessionInput::Player(PlayerSignal::EndOfTrack));
    assert_eq!(step.events.len(), 2);
    assert!(matches!(step.events[1], StreamEvent::Finished));
    assert!(step.command == Command::Stop);
}

#[test]
fn closed_sink_is_an_unknown_error() {
    let (mut s, _) = StreamSession::start(RetryPolicy::standard(), "t".to_string());
    s.step(SessionInput::Player(PlayerSignal::Playing));
    let step = s.step(SessionInput::SinkClosed);
    assert!(matches!(step.events[0], StreamEvent::Error(StreamError::Unknown)));
    assert_eq!(StreamError::Unknown.message(), "Unknown error occurred");
    assert_eq!(StreamError::LoadError("x".to_string()).message(), "Failed to load track: x");
}

#[test]
fn other_player_events_are_ignored() {
    let (mut s, _) = StreamSession::start(RetryPolicy::standard(), "t".to_string());
    let step = s.step(SessionInput::Player(PlayerSignal::Other));
    assert!(step.events.is_empty());
    assert!(step.command == Command::Idle);
    assert!(!s.is_done());
}

#[test]
fn sink_widens_and_counts_bytes() {
    let mut sink = ChannelSink::new(2_000);
    assert_eq!(sink.get_approximate_size(), 2 * 352_800);
    match sink.write(vec![-1i16, 2, i16::MIN]) {
        SinkEvent::Write { bytes, total, content } => {
            assert_eq!(bytes, 12);
            assert_eq!(total, 705_600);
            assert_eq!(content, vec![-1, 2, -32768]);
        }
        SinkEvent::Finished => panic!("expected a write"),
    }
    match sink.write(vec![5i16]) {
        SinkEvent::Write { bytes, .. } => assert_eq!(bytes, 16),
        SinkEvent::Finished => panic!("expected a write"),
    }
    assert!(matches!(sink.stop(), SinkEvent::Finished));
}

#[test]
fn duration_to_size() {
    assert_eq!(convert_track_duration_to_size(0), 0);
    assert_eq!(convert_track_duration_to_size(1_999), 352_800);
    assert_eq!(convert_track_duration_to_size(-1_000), 0);
    assert_eq!(convert_track_duration_to_size(i32::MAX), 2_147_483 * 352_800);
}

#[test]
fn sink_restart_counts_from_zero() {
    let mut sink = ChannelSink::new(1_000);
    sink.write(vec![1i16, 2]);
    sink.restart();
    match sink.write(vec![3i16]) {
        SinkEvent::Write { bytes, total, .. } => assert_eq!((bytes, total), (4, 352_800)),
        SinkEvent::Finished => panic!("expected a write"),
    }
}
