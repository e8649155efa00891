pub mod channel_sink;
pub mod session;

use vstd::prelude::*;

verus! {

/// Why a stream ended without its audio.
pub enum StreamError {
    LoadError(String),
    Unknown,
}

/// What a caller of a stream observes, in the order of emission.
pub enum StreamEvent {
    Write { bytes: usize, total: usize, content: Vec<i32> },
    Finished,
    Retry { attempt: usize, max_attempts: usize },
    Error(StreamError),
}

/// The mathematical value of a stream error.
pub enum ErrorView {
    LoadError(Seq<char>),
    Unknown,
}

/// The mathematical value of a stream event: its samples as a sequence.
pub enum EventView {
    Write { bytes: usize, total: usize, content: Seq<i32> },
    Finished,
    Retry { attempt: usize, max_attempts: usize },
    Error(ErrorView),
}

impl View for StreamError {
    type V = ErrorView;

    open spec fn view(&self) -> ErrorView {
        match self {
            StreamError::LoadError(s) => ErrorView::LoadError(s@),
            StreamError::Unknown => ErrorView::Unknown,
        }
    }
}

impl View for StreamEvent {
    type V = EventView;

    open spec fn view(&self) -> EventView {
        match self {
            StreamEvent::Write { bytes, total, content } => EventView::Write {
                bytes: *bytes,
                total: *total,
                content: content@,
            },
            StreamEvent::Finished => EventView::Finished,
            StreamEvent::Retry { attempt, max_attempts } => EventView::Retry {
                attempt: *attempt,
                max_attempts: *max_attempts,
            },
            StreamEvent::Error(e) => EventView::Error(e@),
        }
    }
}

/// The views of a sequence of events.
pub open spec fn event_views(s: Seq<StreamEvent>) -> Seq<EventView> {
    s.map_values(|e: StreamEvent| e@)
}

/// `Finished` and `Error` end a stream.
pub open spec fn is_terminal(e: EventView) -> bool {
    e is Finished || e is Error
}

pub open spec fn load_error_text(track: Seq<char>) -> Seq<char> {
    "Failed to load track: "@ + track
}

impl StreamError {
    /// The error's message.
    pub fn message(&self) -> (r: String)
        ensures
            self@ matches ErrorView::LoadError(t) ==> r@ == load_error_text(t),
            self@ is Unknown ==> r@ == "Unknown error occurred"@,
    {
        match self {
            StreamError::LoadError(t) => {
                let prefix = String::from_str("Failed to load track: ");
                prefix.concat(t.as_str())
            },
            StreamError::Unknown => String::from_str("Unknown error occurred"),
        }
    }
}

} // verus!
