use libretto::message::{
    sanitize_message_type, FormattedBody, LocationMessageContent, Message, MessageFormat, MessageType,
    TextMessageContent,
};

fn html_text(body: &str, html: &str) -> MessageType {
    MessageType::Text(TextMessageContent {
        body: body.to_owned(),
        formatted: Some(FormattedBody { format: MessageFormat::Html, body: html.to_owned() }),
    })
}

fn bodies(m: &MessageType) -> (String, Option<String>) {
    match m {
        MessageType::Text(t) | MessageType::Emote(t) | MessageType::Notice(t) => {
            (t.body.clone(), t.formatted.as_ref().map(|f| f.body.clone()))
        }
        other => panic!("unexpected msgtype {other:?}"),
    }
}

#[test]
fn sanitizing_twice_changes_nothing_more() {
    let input = html_text(
        "> <@bob:example.org> hi\n\nhello",
        "<mx-reply><blockquote>hi</blockquote></mx-reply><p style=\"x\">hello <script>bad()</script><em>you</em></p>",
    );
    let once = sanitize_message_type(input, true);
    let twice = sanitize_message_type(once.clone(), true);
    assert_eq!(once, twice);
    let kept = sanitize_message_type(once.clone(), false);
    assert_eq!(once, kept);
}

#[test]
fn sanitizing_drops_disallowed_markup() {
    let out = sanitize_message_type(html_text("hi", "<b onclick=\"x()\">hi</b>"), false);
    assert_eq!(bodies(&out), ("hi".to_owned(), Some("<b>hi</b>".to_owned())));
}

#[test]
fn reply_fallback_is_removed_only_when_asked() {
    let plain = "> <@bob:example.org> question\n\nanswer";
    let stripped = sanitize_message_type(html_text(plain, "answer"), true);
    assert_eq!(bodies(&stripped).0, "answer");
    let kept = sanitize_message_type(html_text(plain, "answer"), false);
    assert_eq!(bodies(&kept).0, plain);
}

#[test]
fn custom_format_is_left_alone() {
    let m = MessageType::Notice(TextMessageContent {
        body: "n".to_owned(),
        formatted: Some(FormattedBody {
            format: MessageFormat::Custom("org.example.markdown".to_owned()),
            body: "<b onclick=\"x\">n</b>".to_owned(),
        }),
    });
    assert_eq!(sanitize_message_type(m.clone(), true), m);
}

#[test]
fn other_shapes_are_not_touched() {
    let m = MessageType::Location(LocationMessageContent {
        body: "> <@a:b> x\n\nHome".to_owned(),
        geo_uri: "geo:51.5,-0.1".to_owned(),
    });
    assert_eq!(sanitize_message_type(m.clone(), true), m);
}

#[test]
fn from_event_without_edit() {
    let msg = Message::from_event(html_text("hello", "<i>hello</i>"), None);
    assert!(!msg.edited);
    assert_eq!(bodies(&msg.msgtype), ("hello".to_owned(), Some("<i>hello</i>".to_owned())));
}

#[test]
fn from_event_takes_the_bundled_edit() {
    let msg = Message::from_event(html_text("helo", "helo"), Some(html_text("hello", "<u>hello</u>")));
    assert!(msg.edited);
    assert_eq!(bodies(&msg.msgtype), ("hello".to_owned(), Some("<u>hello</u>".to_owned())));
}

#[test]
fn edits_stay_edited_and_last_edit_wins() {
    let mut msg = Message::from_event(html_text("v0", "v0"), None);
    for n in 1..=3 {
        msg.apply_edit(html_text(&format!("v{n}"), &format!("<b>v{n}</b>")));
        assert!(msg.edited);
    }
    assert_eq!(bodies(&msg.msgtype), ("v3".to_owned(), Some("<b>v3</b>".to_owned())));
}

#[test]
fn edits_keep_their_quoted_lines() {
    let mut msg = Message::from_event(html_text("a", "a"), None);
    msg.apply_edit(html_text("> quoted\n\nnew", "new"));
    assert_eq!(bodies(&msg.msgtype).0, "> quoted\n\nnew");
}
