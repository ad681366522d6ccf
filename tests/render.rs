use libretto::message::{
    FormattedBody, LocationMessageContent, MediaMessageContent, MessageFormat, MessageType,
    TextMessageContent,
};
use libretto::render::{
    html_body, message_formatted_body, milliseconds_since_unix_epoch_to_string, timestamp_to_string,
};

fn html(body: &str) -> FormattedBody {
    FormattedBody { format: MessageFormat::Html, body: body.to_owned() }
}

fn image(body: &str, filename: Option<&str>) -> MessageType {
    MessageType::Image(MediaMessageContent {
        body: body.to_owned(),
        formatted: Some(html("<b>caption</b>")),
        filename: filename.map(|f| f.to_owned()),
        url: Some("mxc://example.org/img".to_owned()),
    })
}

#[test]
fn html_body_only_for_html() {
    assert_eq!(html_body(&html("<p>x</p>")), Some("<p>x</p>"));
    let md = FormattedBody { format: MessageFormat::Custom("markdown".to_owned()), body: "*x*".to_owned() };
    assert_eq!(html_body(&md), None);
}

#[test]
fn formatted_body_of_text_like() {
    let t = MessageType::Text(TextMessageContent { body: "x".to_owned(), formatted: Some(html("<i>x</i>")) });
    assert_eq!(message_formatted_body(&t).map(|f| f.body.as_str()), Some("<i>x</i>"));
    let e = MessageType::Emote(TextMessageContent { body: "x".to_owned(), formatted: None });
    assert!(message_formatted_body(&e).is_none());
}

#[test]
fn media_caption_needs_separate_filename() {
    assert!(message_formatted_body(&image("caption", Some("cat.png"))).is_some());
    assert!(message_formatted_body(&image("cat.png", Some("cat.png"))).is_none());
    assert!(message_formatted_body(&image("cat.png", None)).is_none());
}

#[test]
fn location_has_no_formatted_body() {
    let l = MessageType::Location(LocationMessageContent { body: "here".to_owned(), geo_uri: "geo:0,0".to_owned() });
    assert!(message_formatted_body(&l).is_none());
}

#[test]
fn timestamps_show_in_utc() {
    assert_eq!(milliseconds_since_unix_epoch_to_string(1), "1970-01-01T00:00:00.001Z");
    assert_eq!(milliseconds_since_unix_epoch_to_string(-1), "1969-12-31T23:59:59.999Z");
    assert_eq!(timestamp_to_string(1_700_000_000_000), "2023-11-14T22:13:20Z");
}

#[test]
fn out_of_range_timestamps_are_unknown() {
    assert_eq!(milliseconds_since_unix_epoch_to_string(i64::MAX), "Unknown Time");
    assert_eq!(milliseconds_since_unix_epoch_to_string(i64::MIN), "Unknown Time");
    assert_eq!(timestamp_to_string(u64::MAX), "Unknown Time");
    assert_eq!(milliseconds_since_unix_epoch_to_string(253402207200000), "9999-12-30T22:00:00Z");
    assert_eq!(milliseconds_since_unix_epoch_to_string(253402207200001), "Unknown Time");
}
