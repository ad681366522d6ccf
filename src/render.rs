//! Helpers for showing timeline items: rich-text bodies and timestamps.
use vstd::prelude::*;

use crate::message::{FormattedBody, MediaMessageContent, MessageFormat, MessageType};

verus! {

/// The HTML of a rich-text body, if it is HTML.
pub fn html_body(formatted_body: &FormattedBody) -> (r: Option<&str>)
    ensures
        r is Some <==> formatted_body.format is Html,
        r matches Some(b) ==> b@ == formatted_body.body@,
{
    match &formatted_body.format {
        MessageFormat::Html => Some(formatted_body.body.as_str()),
        MessageFormat::Custom(_) => None,
    }
}

/// A media caption counts only when the body is a caption, that is when a
/// file name is given apart from it.
pub open spec fn media_caption(c: MediaMessageContent) -> Option<FormattedBody> {
    match c.filename {
        Some(f) => if f@ != c.body@ {
            c.formatted
        } else {
            None
        },
        None => None,
    }
}

/// The rich-text body that a message shows, if any.
pub open spec fn formatted_body_of(m: MessageType) -> Option<FormattedBody> {
    match m {
        MessageType::Audio(c) => media_caption(c),
        MessageType::File(c) => media_caption(c),
        MessageType::Image(c) => media_caption(c),
        MessageType::Video(c) => media_caption(c),
        MessageType::Emote(c) => c.formatted,
        MessageType::Notice(c) => c.formatted,
        MessageType::Text(c) => c.formatted,
        _ => None,
    }
}

fn formatted_caption(c: &MediaMessageContent) -> (r: Option<&FormattedBody>)
    ensures
        match r {
            Some(f) => media_caption(*c) == Some(*f),
            None => media_caption(*c) is None,
        },
{
    match &c.filename {
        Some(f) => {
            if crate::text_order::str_eq(f.as_str(), c.body.as_str()) {
                None
            } else {
                match &c.formatted {
                    Some(b) => Some(b),
                    None => None,
                }
            }
        },
        None => None,
    }
}

/// The rich-text body of a message: the formatted body of text-like
/// messages, the caption of media, nothing for other shapes.
pub fn message_formatted_body(message: &MessageType) -> (r: Option<&FormattedBody>)
    ensures
        match r {
            Some(f) => formatted_body_of(*message) == Some(*f),
            None => formatted_body_of(*message) is None,
        },
{
    match message {
        MessageType::Audio(c) => formatted_caption(c),
        MessageType::Emote(c) => match &c.formatted {
            Some(b) => Some(b),
            None => None,
        },
        MessageType::File(c) => formatted_caption(c),
        MessageType::Image(c) => formatted_caption(c),
        MessageType::Location(_) => None,
        MessageType::Notice(c) => match &c.formatted {
            Some(b) => Some(b),
            None => None,
        },
        MessageType::ServerNotice(_) => None,
        MessageType::Text(c) => match &c.formatted {
            Some(b) => Some(b),
            None => None,
        },
        MessageType::Video(c) => formatted_caption(c),
        MessageType::Other { .. } => None,
    }
}

/// Earliest millisecond that a timestamp can hold.
pub const MIN_TIMESTAMP_MILLIS: i64 = -377705023201000;

/// Latest millisecond that a timestamp can hold.
pub const MAX_TIMESTAMP_MILLIS: i64 = 253402207200000;

/// The RFC 3339 text, in UTC, of the instant `millis` after the Unix epoch.
pub uninterp spec fn utc_timestamp_text(millis: int) -> Seq<char>;

/// Relies on `jiff::Timestamp::from_millisecond`, which fails exactly outside
/// its supported range, and on the RFC 3339 text that `Timestamp` displays.
#[verifier::external_body]
fn timestamp_text(millis: i64) -> (r: Option<String>)
    ensures
        r is Some <==> MIN_TIMESTAMP_MILLIS <= millis <= MAX_TIMESTAMP_MILLIS,
        r matches Some(t) ==> t@ == utc_timestamp_text(millis as int),
{
    match jiff::Timestamp::from_millisecond(millis) {
        Ok(ts) => Some(ts.to_string()),
        Err(_) => None,
    }
}

/// What is shown for a time that cannot be represented.
pub open spec fn unknown_time() -> Seq<char> {
    seq!['U', 'n', 'k', 'n', 'o', 'w', 'n', ' ', 'T', 'i', 'm', 'e']
}

/// The text of the instant `millis` after the Unix epoch, in UTC, or the
/// unknown-time text where the instant cannot be represented.
pub open spec fn timestamp_string_spec(millis: int) -> Seq<char> {
    if MIN_TIMESTAMP_MILLIS <= millis <= MAX_TIMESTAMP_MILLIS {
        utc_timestamp_text(millis)
    } else {
        unknown_time()
    }
}

fn unknown_time_text() -> (r: String)
    ensures
        r@ == unknown_time(),
{
    proof {
        reveal_strlit("Unknown Time");
    }
    let r = "Unknown Time".to_owned();
    assert(r@ =~= unknown_time());
    r
}

/// Shows an instant given in milliseconds since the Unix epoch.
pub fn milliseconds_since_unix_epoch_to_string(milliseconds: i64) -> (r: String)
    ensures
        r@ == timestamp_string_spec(milliseconds as int),
{
    match timestamp_text(milliseconds) {
        Some(t) => t,
        None => unknown_time_text(),
    }
}

/// Shows an event's origin timestamp.
pub fn timestamp_to_string(timestamp: u64) -> (r: String)
    ensures
        r@ == timestamp_string_spec(timestamp as int),
{
    if timestamp <= MAX_TIMESTAMP_MILLIS as u64 {
        milliseconds_since_unix_epoch_to_string(timestamp as i64)
    } else {
        unknown_time_text()
    }
}

} // verus!
