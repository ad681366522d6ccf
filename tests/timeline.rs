use libretto::message::{FormattedBody, MessageFormat, MessageType, TextMessageContent};
use libretto::profile::{Profile, RoomContext, RoomMember};
use libretto::timeline::{
    assemble_timeline, build_timeline_event, build_timeline_item, classify, EventKind, MessageLikeEvent,
    MsgLikeKind, ParseError, SyncEvent, TimelineItemContent,
};
use ruma::events::room::name::RoomNameEventContent;
use ruma::events::{AnyFullStateEventContent, FullStateEventContent};

fn text(body: &str) -> MessageType {
    MessageType::Text(TextMessageContent { body: body.to_owned(), formatted: None })
}

fn msg(event: MessageLikeEvent) -> EventKind {
    EventKind::MessageLike(event)
}

fn event(id: &str, sender: &str, timestamp: u64, kind: EventKind) -> SyncEvent {
    SyncEvent {
        event_id: Some(id.to_owned()),
        sender: sender.to_owned(),
        timestamp,
        kind,
        raw: format!("{{\"event_id\":\"{id}\",\"origin_server_ts\":{timestamp}}}"),
    }
}

fn room_name(name: &str) -> EventKind {
    EventKind::State {
        state_key: String::new(),
        content: AnyFullStateEventContent::RoomName(FullStateEventContent::Original {
            content: RoomNameEventContent::new(name.to_owned()),
            prev_content: None,
        }),
    }
}

fn message_body(content: &TimelineItemContent) -> Option<(String, bool)> {
    match content {
        TimelineItemContent::MsgLike(m) => match &m.kind {
            MsgLikeKind::Message(msg) => match &msg.msgtype {
                MessageType::Text(t) => Some((t.body.clone(), msg.edited)),
                _ => None,
            },
            _ => None,
        },
        _ => None,
    }
}

#[test]
fn edit_and_state_change_make_two_items() {
    // Newest first: the state change, then the edit, then the original.
    let batch = vec![
        event("$3", "@bob:example.org", 3000, room_name("Renamed room")),
        event(
            "$2",
            "@alice:example.org",
            2000,
            msg(MessageLikeEvent::Replacement { replaces: "$1".to_owned(), new_content: text("corrected") }),
        ),
        event(
            "$1",
            "@alice:example.org",
            1000,
            msg(MessageLikeEvent::RoomMessage { msgtype: text("original"), replacement: Some(text("corrected")) }),
        ),
    ];
    let page = assemble_timeline(batch, &None, None);
    assert_eq!(page.events.len(), 2);
    assert!(page.end_of_timeline);
    assert_eq!(page.events[0].event_id.as_deref(), Some("$1"));
    assert_eq!(message_body(&page.events[0].content), Some(("corrected".to_owned(), true)));
    assert_eq!(page.events[1].event_id.as_deref(), Some("$3"));
    match &page.events[1].content {
        TimelineItemContent::OtherState(state) => match &state.content {
            AnyFullStateEventContent::RoomName(FullStateEventContent::Original { content, .. }) => {
                assert_eq!(content.name, "Renamed room");
            }
            other => panic!("unexpected state content {other:?}"),
        },
        other => panic!("unexpected content {other:?}"),
    }
}

#[test]
fn continuation_token_means_more_history() {
    let batch = vec![event("$1", "@a:x", 1, msg(MessageLikeEvent::Reaction))];
    let page = assemble_timeline(batch, &Some("t42".to_owned()), None);
    assert!(!page.end_of_timeline);
    assert_eq!(page.events.len(), 1);
}

#[test]
fn redacted_message_is_redacted_without_reactions() {
    let content = classify(msg(MessageLikeEvent::RedactedRoomMessage));
    match content {
        TimelineItemContent::MsgLike(m) => {
            assert!(matches!(m.kind, MsgLikeKind::Redacted));
            assert!(m.reactions.is_empty());
            assert!(m.in_reply_to.is_none());
            assert!(m.thread_root.is_none());
        }
        other => panic!("unexpected content {other:?}"),
    }
}

#[test]
fn reactions_and_redactions_are_hidden() {
    for kind in [
        msg(MessageLikeEvent::Reaction),
        msg(MessageLikeEvent::Redaction),
    ] {
        match build_timeline_item(kind) {
            Ok(TimelineItemContent::MsgLike(m)) => assert!(matches!(m.kind, MsgLikeKind::Hidden)),
            other => panic!("unexpected item {other:?}"),
        }
    }
}

#[test]
fn unsupported_event_fails_alone() {
    let batch = vec![
        event("$3", "@a:x", 30, msg(MessageLikeEvent::RoomMessage { msgtype: text("after"), replacement: None })),
        event("$2", "@a:x", 20, msg(MessageLikeEvent::Other { event_type: "m.sticker".to_owned() })),
        event("$1", "@a:x", 10, msg(MessageLikeEvent::RoomMessage { msgtype: text("before"), replacement: None })),
    ];
    let page = assemble_timeline(batch, &None, None);
    assert_eq!(page.events.len(), 3);
    assert_eq!(message_body(&page.events[0].content), Some(("before".to_owned(), false)));
    match &page.events[1].content {
        TimelineItemContent::FailedToParseMessageLike { error } => assert_eq!(
            error,
            &ParseError::UnsupportedEventType { event_type: "m.sticker".to_owned() }
        ),
        other => panic!("unexpected content {other:?}"),
    }
    assert_eq!(message_body(&page.events[2].content), Some(("after".to_owned(), false)));
}

#[test]
fn unsupported_event_is_an_error_for_the_item() {
    let r = build_timeline_item(msg(MessageLikeEvent::Other { event_type: "m.poll".to_owned() }));
    assert_eq!(r.err(), Some(ParseError::UnsupportedEventType { event_type: "m.poll".to_owned() }));
}

#[test]
fn undecodable_events_keep_their_kind() {
    let state = classify(EventKind::Undecodable {
        event_type: "m.room.topic".to_owned(),
        state_key: Some(String::new()),
        error: "missing field `topic`".to_owned(),
    });
    match state {
        TimelineItemContent::FailedToParseState { event_type, state_key, error } => {
            assert_eq!(event_type, "m.room.topic");
            assert_eq!(state_key, "");
            assert_eq!(error, ParseError::Decode { message: "missing field `topic`".to_owned() });
        }
        other => panic!("unexpected content {other:?}"),
    }
    let message = classify(EventKind::Undecodable {
        event_type: "m.room.message".to_owned(),
        state_key: None,
        error: "invalid type".to_owned(),
    });
    match message {
        TimelineItemContent::FailedToParseMessageLike { error } => {
            assert_eq!(error, ParseError::Decode { message: "invalid type".to_owned() })
        }
        other => panic!("unexpected content {other:?}"),
    }
}

#[test]
fn output_is_oldest_first_with_raw_kept() {
    let batch: Vec<SyncEvent> = (0..5u64)
        .rev()
        .map(|i| {
            event(
                &format!("${i}"),
                "@a:x",
                100 + i,
                msg(MessageLikeEvent::RoomMessage {
                    msgtype: text(&format!("m{i}")),
                    replacement: None,
                }),
            )
        })
        .collect();
    let raws: Vec<String> = batch.iter().rev().map(|e| e.raw.clone()).collect();
    let page = assemble_timeline(batch, &None, None);
    let stamps: Vec<u64> = page.events.iter().map(|e| e.timestamp).collect();
    assert_eq!(stamps, vec![100, 101, 102, 103, 104]);
    let kept: Vec<String> = page.events.iter().map(|e| e.raw.clone()).collect();
    assert_eq!(kept, raws);
}

#[test]
fn raw_is_kept_for_failures() {
    let ev = event("$9", "@a:x", 5, msg(MessageLikeEvent::Other { event_type: "m.call.invite".to_owned() }));
    let raw = ev.raw.clone();
    let out = build_timeline_event(ev, None);
    assert_eq!(out.raw, raw);
    assert_eq!(out.sender, "@a:x");
    assert_eq!(out.timestamp, 5);
}

#[test]
fn sender_profile_comes_from_room_directory() {
    let alice = Profile {
        display_name: Some("Alice".to_owned()),
        display_name_ambiguous: false,
        avatar_url: Some("mxc://example.org/abc".to_owned()),
    };
    let room = RoomContext {
        is_encrypted: true,
        members: vec![RoomMember { user_id: "@alice:example.org".to_owned(), profile: alice.clone() }],
    };
    let known = build_timeline_event(event("$1", "@alice:example.org", 1, msg(MessageLikeEvent::Reaction)), Some(&room));
    assert_eq!(known.sender_profile, Some(alice));
    assert!(known.is_room_encrypted);
    let unknown = build_timeline_event(event("$2", "@carol:example.org", 2, msg(MessageLikeEvent::Reaction)), Some(&room));
    assert_eq!(unknown.sender_profile, None);
    let no_room = build_timeline_event(event("$3", "@alice:example.org", 3, msg(MessageLikeEvent::Reaction)), None);
    assert_eq!(no_room.sender_profile, None);
    assert!(!no_room.is_room_encrypted);
}

#[test]
fn message_bodies_are_sanitized_on_classification() {
    let msgtype = MessageType::Text(TextMessageContent {
        body: "> <@bob:example.org> question\n\nanswer".to_owned(),
        formatted: Some(FormattedBody {
            format: MessageFormat::Html,
            body: "<mx-reply><blockquote>question</blockquote></mx-reply><b onclick=\"x()\">answer</b>"
                .to_owned(),
        }),
    });
    let content = classify(msg(MessageLikeEvent::RoomMessage { msgtype, replacement: None }));
    match content {
        TimelineItemContent::MsgLike(m) => match m.kind {
            MsgLikeKind::Message(msg) => {
                assert!(!msg.edited);
                match msg.msgtype {
                    MessageType::Text(t) => {
                        assert_eq!(t.body, "answer");
                        assert_eq!(t.formatted.unwrap().body, "<b>answer</b>");
                    }
                    other => panic!("unexpected msgtype {other:?}"),
                }
            }
            other => panic!("unexpected kind {other:?}"),
        },
        other => panic!("unexpected content {other:?}"),
    }
}

#[test]
fn undecryptable_message_is_a_placeholder() {
    match classify(msg(MessageLikeEvent::Undecryptable)) {
        TimelineItemContent::MsgLike(m) => {
            assert!(matches!(m.kind, MsgLikeKind::UnableToDecrypt));
            assert!(m.reactions.is_empty());
        }
        other => panic!("unexpected content {other:?}"),
    }
}
