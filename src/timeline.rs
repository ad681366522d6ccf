//! Classification of single events and assembly of a batch into a timeline.
use vstd::prelude::*;

use crate::message::{built_message, Message, MessageType};
use crate::profile::{profile_in, resolve_profile, Profile, RoomContext};
use crate::reactions::ReactionsByKeyBySender;

verus! {

/// ruma's typed content of a state event; carried through, never read.
#[verifier::external_type_specification]
#[verifier::external_body]
pub struct ExAnyFullStateEventContent(ruma::events::AnyFullStateEventContent);

/// Relies on the `Clone` that ruma derives for state event content; nothing is
/// claimed of the copy.
pub assume_specification[ <ruma::events::AnyFullStateEventContent as Clone>::clone ](
    c: &ruma::events::AnyFullStateEventContent,
) -> ruma::events::AnyFullStateEventContent;

/// A message-like event, by subtype.
#[derive(Clone, Debug)]
pub enum MessageLikeEvent {
    /// A room message, with the new content of an edit bundled with it.
    RoomMessage { msgtype: MessageType, replacement: Option<MessageType> },
    /// An edit of the room message `replaces`. The server bundles the newest
    /// edit with the original, which is where it shows.
    Replacement { replaces: String, new_content: MessageType },
    /// A room message whose content was redacted.
    RedactedRoomMessage,
    /// An encrypted message that could not be decrypted.
    Undecryptable,
    /// A reaction to another event.
    Reaction,
    /// The redaction of another event.
    Redaction,
    /// A subtype with no handling here.
    Other { event_type: String },
}

/// What decoding made of one delivered event's payload.
#[derive(Clone, Debug)]
pub enum EventKind {
    MessageLike(MessageLikeEvent),
    /// A state event, with its typed content.
    State { state_key: String, content: ruma::events::AnyFullStateEventContent },
    /// A payload that did not decode against its declared type. A state key
    /// marks it as a state event.
    Undecodable { event_type: String, state_key: Option<String>, error: String },
}

/// One raw event as the transport delivers it.
#[derive(Clone, Debug)]
pub struct SyncEvent {
    pub event_id: Option<String>,
    pub sender: String,
    /// Origin timestamp, in milliseconds since the Unix epoch.
    pub timestamp: u64,
    pub kind: EventKind,
    /// The payload as it was received.
    pub raw: String,
}

/// Why an event could not become a regular item.
#[derive(Clone, Debug, PartialEq, Eq)]
pub enum ParseError {
    /// The payload did not decode; the decoder's message.
    Decode { message: String },
    /// A message-like event of a type that is not handled.
    UnsupportedEventType { event_type: String },
}

/// A state event that has no item kind of its own.
#[derive(Clone, Debug)]
pub struct OtherState {
    pub state_key: String,
    pub content: ruma::events::AnyFullStateEventContent,
}

/// The kind of a message-like item.
#[derive(Clone, Debug)]
pub enum MsgLikeKind {
    /// A room message, including its edits.
    Message(Message),
    /// A reaction or redaction, which has no visible body of its own.
    Hidden,
    /// A message whose content was removed.
    Redacted,
    /// A message that could not be decrypted.
    UnableToDecrypt,
}

/// Details about an event being replied to.
#[derive(Debug)]
pub struct InReplyToDetails {
    pub event_id: String,
    /// The replied-to event, when it was fetched.
    pub event: Option<Box<RepliedToEvent>>,
}

/// The parts of a replied-to event that are shown with a reply.
#[derive(Debug)]
pub struct RepliedToEvent {
    pub content: TimelineItemContent,
    pub sender: String,
    pub sender_profile: Option<Profile>,
}

/// A message-like item with its reactions and thread information.
#[derive(Debug)]
pub struct MsgLikeContent {
    pub kind: MsgLikeKind,
    pub reactions: ReactionsByKeyBySender,
    /// The event this message replies to, if any.
    pub in_reply_to: Option<InReplyToDetails>,
    /// The thread root, if this message is in a thread.
    pub thread_root: Option<String>,
}

/// The content of a timeline item.
#[derive(Debug)]
pub enum TimelineItemContent {
    MsgLike(MsgLikeContent),
    /// A state event with no dedicated handling.
    OtherState(OtherState),
    /// A message-like event that could not be made into an item.
    FailedToParseMessageLike { error: ParseError },
    /// A state event that failed to decode.
    FailedToParseState { event_type: String, state_key: String, error: ParseError },
}

/// One normalised, renderable event.
#[derive(Debug)]
pub struct TimelineEvent {
    pub event_id: Option<String>,
    pub sender: String,
    pub sender_profile: Option<Profile>,
    /// Milliseconds since the Unix epoch.
    pub timestamp: u64,
    pub content: TimelineItemContent,
    /// Whether the room is encrypted; false when that is not known.
    pub is_room_encrypted: bool,
    /// The payload as it was received.
    pub raw: String,
}

/// A message-like item of `kind` with no reactions, reply or thread.
pub open spec fn bare_msg_like(c: TimelineItemContent, kind: spec_fn(MsgLikeKind) -> bool) -> bool {
    c matches TimelineItemContent::MsgLike(m) && kind(m.kind) && m.reactions.wf() && m.reactions@.len()
        == 0 && m.in_reply_to is None && m.thread_root is None
}

/// The item that a message-like event makes, or why it makes none.
pub open spec fn message_like_item(event: MessageLikeEvent, r: Result<TimelineItemContent, ParseError>) -> bool {
    match event {
        MessageLikeEvent::RoomMessage { msgtype, replacement } => r matches Ok(c) && bare_msg_like(
            c,
            |k: MsgLikeKind| k matches MsgLikeKind::Message(msg) && built_message(msg, msgtype, replacement),
        ),
        MessageLikeEvent::Replacement { .. } => r matches Ok(c) && bare_msg_like(c, |k: MsgLikeKind| k is Hidden),
        MessageLikeEvent::RedactedRoomMessage => r matches Ok(c) && bare_msg_like(c, |k: MsgLikeKind| k is Redacted),
        MessageLikeEvent::Undecryptable => r matches Ok(c) && bare_msg_like(c, |k: MsgLikeKind| k is UnableToDecrypt),
        MessageLikeEvent::Reaction => r matches Ok(c) && bare_msg_like(c, |k: MsgLikeKind| k is Hidden),
        MessageLikeEvent::Redaction => r matches Ok(c) && bare_msg_like(c, |k: MsgLikeKind| k is Hidden),
        MessageLikeEvent::Other { event_type } => r == Err::<TimelineItemContent, ParseError>(
            ParseError::UnsupportedEventType { event_type },
        ),
    }
}

/// The item that an event of `kind` makes, or why it makes none.
pub open spec fn item_for(kind: EventKind, r: Result<TimelineItemContent, ParseError>) -> bool {
    match kind {
        EventKind::MessageLike(event) => message_like_item(event, r),
        EventKind::State { state_key, content } => r == Ok::<TimelineItemContent, ParseError>(
            TimelineItemContent::OtherState(OtherState { state_key, content }),
        ),
        EventKind::Undecodable { error, .. } => r == Err::<TimelineItemContent, ParseError>(
            ParseError::Decode { message: error },
        ),
    }
}

fn bare(kind: MsgLikeKind) -> (r: TimelineItemContent)
    ensures
        r matches TimelineItemContent::MsgLike(m) && m.kind == kind && m.reactions.wf()
            && m.reactions@.len() == 0 && m.in_reply_to is None && m.thread_root is None,
{
    TimelineItemContent::MsgLike(
        MsgLikeContent {
            kind,
            reactions: ReactionsByKeyBySender::new(),
            in_reply_to: None,
            thread_root: None,
        },
    )
}

fn messagelike_to_content(event: MessageLikeEvent) -> (r: Result<TimelineItemContent, ParseError>)
    ensures
        message_like_item(event, r),
{
    match event {
        MessageLikeEvent::RoomMessage { msgtype, replacement } => {
            Ok(bare(MsgLikeKind::Message(Message::from_event(msgtype, replacement))))
        },
        MessageLikeEvent::Replacement { .. } => Ok(bare(MsgLikeKind::Hidden)),
        MessageLikeEvent::RedactedRoomMessage => Ok(bare(MsgLikeKind::Redacted)),
        MessageLikeEvent::Undecryptable => Ok(bare(MsgLikeKind::UnableToDecrypt)),
        MessageLikeEvent::Reaction => Ok(bare(MsgLikeKind::Hidden)),
        MessageLikeEvent::Redaction => Ok(bare(MsgLikeKind::Hidden)),
        MessageLikeEvent::Other { event_type } => Err(ParseError::UnsupportedEventType { event_type }),
    }
}

/// The item for one event: message-like events by their subtype, state
/// events with their content as it is. Needs no other event.
pub fn build_timeline_item(kind: EventKind) -> (r: Result<TimelineItemContent, ParseError>)
    ensures
        item_for(kind, r),
{
    match kind {
        EventKind::State { state_key, content } => Ok(
            TimelineItemContent::OtherState(OtherState { state_key, content }),
        ),
        EventKind::Undecodable { error, .. } => Err(ParseError::Decode { message: error }),
        EventKind::MessageLike(event) => messagelike_to_content(event),
    }
}

/// The item an event of `kind` shows as when failures are kept to the event:
/// an unsupported or undecodable event becomes a failure item of its own.
pub open spec fn classified(kind: EventKind, c: TimelineItemContent) -> bool {
    match kind {
        EventKind::MessageLike(MessageLikeEvent::Other { event_type }) => c
            == TimelineItemContent::FailedToParseMessageLike {
            error: ParseError::UnsupportedEventType { event_type },
        },
        EventKind::Undecodable { event_type, state_key, error } => match state_key {
            Some(k) => c == TimelineItemContent::FailedToParseState {
                event_type,
                state_key: k,
                error: ParseError::Decode { message: error },
            },
            None => c == TimelineItemContent::FailedToParseMessageLike {
                error: ParseError::Decode { message: error },
            },
        },
        _ => item_for(kind, Ok(c)),
    }
}

/// Classifies one event; never fails, whatever the payload held.
pub fn classify(kind: EventKind) -> (c: TimelineItemContent)
    ensures
        classified(kind, c),
{
    match kind {
        EventKind::Undecodable { event_type, state_key, error } => match state_key {
            Some(k) => TimelineItemContent::FailedToParseState {
                event_type,
                state_key: k,
                error: ParseError::Decode { message: error },
            },
            None => TimelineItemContent::FailedToParseMessageLike {
                error: ParseError::Decode { message: error },
            },
        },
        other => match build_timeline_item(other) {
            Ok(c) => c,
            Err(error) => TimelineItemContent::FailedToParseMessageLike { error },
        },
    }
}

/// `out` is the timeline event made of `ev` in `room`.
pub open spec fn event_built(ev: SyncEvent, room: Option<&RoomContext>, out: TimelineEvent) -> bool {
    &&& out.event_id == ev.event_id
    &&& out.sender == ev.sender
    &&& out.sender_profile == profile_in(room, ev.sender@)
    &&& out.timestamp == ev.timestamp
    &&& classified(ev.kind, out.content)
    &&& out.is_room_encrypted == (room matches Some(c) && c.is_encrypted)
    &&& out.raw == ev.raw
}

/// Makes one timeline event: classifies it, resolves its sender and keeps
/// its payload as it was received.
pub fn build_timeline_event(event: SyncEvent, room: Option<&RoomContext>) -> (r: TimelineEvent)
    ensures
        event_built(event, room, r),
{
    let sender_profile = resolve_profile(event.sender.as_str(), room);
    let is_room_encrypted = match room {
        Some(c) => c.is_encrypted,
        None => false,
    };
    TimelineEvent {
        event_id: event.event_id,
        sender: event.sender,
        sender_profile,
        timestamp: event.timestamp,
        content: classify(event.kind),
        is_room_encrypted,
        raw: event.raw,
    }
}

/// One page of a room's timeline.
#[derive(Debug)]
pub struct TimelinePage {
    /// Oldest first.
    pub events: Vec<TimelineEvent>,
    /// No earlier history is left to page into.
    pub end_of_timeline: bool,
}

/// Whether an event of `kind` gets an item of its own. An edit does not: it
/// shows through the original it replaces.
pub open spec fn shows_item(kind: EventKind) -> bool {
    !(kind matches EventKind::MessageLike(event) && event is Replacement)
}

/// The events of a newest-first batch that get an item, oldest first.
pub open spec fn chronological(batch: Seq<SyncEvent>) -> Seq<SyncEvent>
    decreases batch.len(),
{
    if batch.len() == 0 {
        Seq::empty()
    } else {
        let older = chronological(batch.drop_first());
        if shows_item(batch[0].kind) {
            older.push(batch[0])
        } else {
            older
        }
    }
}

/// `events` is the newest-first `batch` made into timeline events, oldest first.
pub open spec fn assembled_from(batch: Seq<SyncEvent>, room: Option<&RoomContext>, events: Seq<TimelineEvent>) -> bool {
    let order = chronological(batch);
    &&& events.len() == order.len()
    &&& forall|i: int| 0 <= i < events.len() ==> event_built(order[i], room, #[trigger] events[i])
}

/// Makes a newest-first batch into timeline events in chronological order.
/// Each event stands for itself: one that cannot be understood becomes a
/// failure item in its place. The timeline has ended when the transport gave
/// no token to continue from.
pub fn assemble_timeline(
    batch: Vec<SyncEvent>,
    continuation_token: &Option<String>,
    room: Option<&RoomContext>,
) -> (r: TimelinePage)
    ensures
        assembled_from(batch@, room, r.events@),
        r.end_of_timeline == continuation_token.is_none(),
{
    let ghost all = batch@;
    let mut rest = batch;
    let mut events: Vec<TimelineEvent> = Vec::new();
    assert(all.skip(all.len() as int) =~= Seq::<SyncEvent>::empty());
    while rest.len() > 0
        invariant
            rest@ == all.take(rest@.len() as int),
            rest@.len() <= all.len(),
            events@.len() == chronological(all.skip(rest@.len() as int)).len(),
            forall|i: int| 0 <= i < events@.len() ==> event_built(
                chronological(all.skip(rest@.len() as int))[i],
                room,
                #[trigger] events@[i],
            ),
        decreases rest@.len(),
    {
        let ghost k = rest@.len() as int;
        let event = rest.pop().unwrap();
        assert(event == all[k - 1]);
        assert(rest@ =~= all.take(k - 1));
        assert(all.skip(k - 1).drop_first() =~= all.skip(k));
        assert(all.skip(k - 1)[0] == event);
        let shown = match &event.kind {
            EventKind::MessageLike(MessageLikeEvent::Replacement { .. }) => false,
            _ => true,
        };
        if shown {
            events.push(build_timeline_event(event, room));
        }
    }
    assert(all.skip(0) =~= all);
    TimelinePage { events, end_of_timeline: continuation_token.is_none() }
}

/// The batch comes newest first: origin timestamps do not increase.
pub open spec fn newest_first(batch: Seq<SyncEvent>) -> bool {
    forall|i: int, j: int| 0 <= i <= j < batch.len() ==> #[trigger] batch[j].timestamp <= #[trigger] batch[i].timestamp
}

/// Oldest first: origin timestamps do not decrease.
pub open spec fn oldest_first(events: Seq<TimelineEvent>) -> bool {
    forall|i: int, j: int| 0 <= i <= j < events.len() ==> #[trigger] events[i].timestamp <= #[trigger] events[j].timestamp
}

/// The chronological order holds events of the batch only, and all of them
/// but edits, each once and in reverse.
pub proof fn lemma_chronological_is_reversal(batch: Seq<SyncEvent>)
    ensures
        forall|e: SyncEvent| #[trigger] chronological(batch).contains(e) ==> batch.contains(e),
        (forall|i: int| 0 <= i < batch.len() ==> shows_item(#[trigger] batch[i].kind)) ==> chronological(batch)
            =~= batch.reverse(),
        newest_first(batch) ==> forall|i: int, j: int|
            0 <= i <= j < chronological(batch).len() ==> #[trigger] chronological(batch)[i].timestamp
                <= #[trigger] chronological(batch)[j].timestamp,
    decreases batch.len(),
{
    if batch.len() > 0 {
        let tail = batch.drop_first();
        lemma_chronological_is_reversal(tail);
        let older = chronological(tail);
        assert forall|e: SyncEvent| #[trigger] chronological(batch).contains(e) implies batch.contains(e) by {
            if older.contains(e) {
                let k = choose|k: int| 0 <= k < tail.len() && tail[k] == e;
                assert(batch[k + 1] == e);
            } else {
                assert(chronological(batch) == older.push(batch[0]));
                let k = choose|k: int| 0 <= k < older.len() + 1 && older.push(batch[0])[k] == e;
                assert(batch[0] == e);
            }
        }
        if forall|i: int| 0 <= i < batch.len() ==> shows_item(#[trigger] batch[i].kind) {
            assert forall|i: int| 0 <= i < tail.len() implies shows_item(#[trigger] tail[i].kind) by {
                assert(tail[i] == batch[i + 1]);
            }
            assert(shows_item(batch[0].kind));
            assert(batch.reverse() =~= tail.reverse().push(batch[0]));
        }
        if newest_first(batch) {
            assert(newest_first(tail)) by {
                assert forall|i: int, j: int| 0 <= i <= j < tail.len() implies #[trigger] tail[j].timestamp
                    <= #[trigger] tail[i].timestamp by {
                    assert(tail[i] == batch[i + 1] && tail[j] == batch[j + 1]);
                }
            }
            let c = chronological(batch);
            assert forall|i: int, j: int| 0 <= i <= j < c.len() implies #[trigger] c[i].timestamp
                <= #[trigger] c[j].timestamp by {
                if shows_item(batch[0].kind) && j == older.len() {
                    assert(older.contains(c[i]) || i == j);
                    if i < j {
                        assert(c[i] == older[i]);
                        let k = choose|k: int| 0 <= k < tail.len() && tail[k] == c[i];
                        assert(batch[k + 1] == c[i]);
                    }
                } else {
                    assert(c[i] == older[i] && c[j] == older[j]);
                }
            }
        }
    } else {
        assert(chronological(batch) =~= batch.reverse());
    }
}

/// An assembled page follows the batch in reverse: its items come from the
/// batch's events other than edits, oldest first, so a newest-first batch
/// gives non-decreasing timestamps; without edits the page is the exact
/// reversal of the batch.
pub proof fn lemma_assembly_order(batch: Seq<SyncEvent>, room: Option<&RoomContext>, events: Seq<TimelineEvent>)
    requires
        assembled_from(batch, room, events),
    ensures
        newest_first(batch) ==> oldest_first(events),
        (forall|i: int| 0 <= i < batch.len() ==> shows_item(#[trigger] batch[i].kind)) ==> events.len()
            == batch.len() && forall|i: int|
            0 <= i < events.len() ==> event_built(batch[batch.len() - 1 - i], room, #[trigger] events[i]),
{
    lemma_chronological_is_reversal(batch);
    let c = chronological(batch);
    if newest_first(batch) {
        assert forall|i: int, j: int| 0 <= i <= j < events.len() implies #[trigger] events[i].timestamp
            <= #[trigger] events[j].timestamp by {
            assert(event_built(c[i], room, events[i]));
            assert(event_built(c[j], room, events[j]));
            assert(c[i].timestamp <= c[j].timestamp);
        }
    }
    if forall|i: int| 0 <= i < batch.len() ==> shows_item(#[trigger] batch[i].kind) {
        assert forall|i: int| 0 <= i < events.len() implies event_built(batch[batch.len() - 1 - i], room, #[trigger] events[i]) by {
            assert(event_built(c[i], room, events[i]));
            assert(c[i] == batch.reverse()[i]);
        }
    }
}

/// Every item keeps the payload of the event it came from, unchanged,
/// whatever became of its content.
pub proof fn lemma_raw_preserved(batch: Seq<SyncEvent>, room: Option<&RoomContext>, events: Seq<TimelineEvent>)
    requires
        assembled_from(batch, room, events),
    ensures
        forall|i: int| 0 <= i < events.len() ==> (#[trigger] events[i]).raw@ == chronological(batch)[i].raw@,
{
    assert forall|i: int| 0 <= i < events.len() implies (#[trigger] events[i]).raw@ == chronological(batch)[i].raw@ by {
        assert(event_built(chronological(batch)[i], room, events[i]));
    }
}

} // verus!
