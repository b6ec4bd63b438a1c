use vstd::prelude::*;

verus! {

/// The five figures of a price record.
#[derive(Clone, Copy, Debug, PartialEq, Eq, Structural)]
pub enum Field {
    Open,
    High,
    Low,
    Close,
    Volume,
}

/// Why a response gave no prices. Each of these drops the whole response.
#[derive(Debug)]
pub enum FeedError {
    /// The figure `field` of the record at `timestamp` is no number of its kind.
    MalformedNumber { timestamp: String, field: Field },
    /// A record's key does not spell a local date and time.
    MalformedTimestamp { timestamp: String },
    /// The response names a time zone that the time zone database does not know.
    UnknownTimezone { name: String },
    /// The response lacks a part that every response has, or has it in another shape.
    UnrecognizedResponseShape,
    /// The provider could not be reached, or what it sent is no JSON document.
    TransportFailure,
}

/// A [`FeedError`] with its texts as sequences of characters.
pub enum FeedErrorView {
    MalformedNumber { timestamp: Seq<char>, field: Field },
    MalformedTimestamp { timestamp: Seq<char> },
    UnknownTimezone { name: Seq<char> },
    UnrecognizedResponseShape,
    TransportFailure,
}

impl View for FeedError {
    type V = FeedErrorView;

    open spec fn view(&self) -> FeedErrorView {
        match *self {
            FeedError::MalformedNumber { timestamp, field } => FeedErrorView::MalformedNumber {
                timestamp: timestamp@,
                field,
            },
            FeedError::MalformedTimestamp { timestamp } => FeedErrorView::MalformedTimestamp {
                timestamp: timestamp@,
            },
            FeedError::UnknownTimezone { name } => FeedErrorView::UnknownTimezone { name: name@ },
            FeedError::UnrecognizedResponseShape => FeedErrorView::UnrecognizedResponseShape,
            FeedError::TransportFailure => FeedErrorView::TransportFailure,
        }
    }
}

} // verus!
