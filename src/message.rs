//! Message content and its normalisation: sanitised bodies and folded edits.
use vstd::prelude::*;

verus! {

/// What a rich-text body of a message is written in.
#[derive(Clone, Debug, PartialEq, Eq)]
pub enum MessageFormat {
    /// HTML, the one format that is sanitised.
    Html,
    /// Any other format, by its name.
    Custom(String),
}

/// A rich-text body beside the plain one.
#[derive(Clone, Debug, PartialEq, Eq)]
pub struct FormattedBody {
    pub format: MessageFormat,
    pub body: String,
}

/// Content of a text, emote or notice message.
#[derive(Clone, Debug, PartialEq, Eq)]
pub struct TextMessageContent {
    pub body: String,
    pub formatted: Option<FormattedBody>,
}

/// Content of an audio, file, image or video message.
#[derive(Clone, Debug, PartialEq, Eq)]
pub struct MediaMessageContent {
    /// The caption, or the file name when there is no caption.
    pub body: String,
    /// The rich-text caption.
    pub formatted: Option<FormattedBody>,
    /// The original file name, where it differs from the caption.
    pub filename: Option<String>,
    /// The media's content URI, when it is not encrypted.
    pub url: Option<String>,
}

/// Content of a location message.
#[derive(Clone, Debug, PartialEq, Eq)]
pub struct LocationMessageContent {
    pub body: String,
    pub geo_uri: String,
}

/// Content of a notice sent by the server itself.
#[derive(Clone, Debug, PartialEq, Eq)]
pub struct ServerNoticeMessageContent {
    pub body: String,
    pub server_notice_type: String,
}

/// The closed set of message shapes.
#[derive(Clone, Debug, PartialEq, Eq)]
pub enum MessageType {
    Audio(MediaMessageContent),
    Emote(TextMessageContent),
    File(MediaMessageContent),
    Image(MediaMessageContent),
    Location(LocationMessageContent),
    Notice(TextMessageContent),
    ServerNotice(ServerNoticeMessageContent),
    Text(TextMessageContent),
    Video(MediaMessageContent),
    /// A shape with no handling of its own, by its type name.
    Other { msgtype: String, body: String },
}

/// What the HTML sanitiser makes of `html`, keeping only the allowed tags and
/// attributes, and removing the reply fallback if asked to.
pub uninterp spec fn html_sanitized(html: Seq<char>, remove_reply_fallback: bool) -> Seq<char>;

/// A plain-text body without the quoted lines of a reply fallback.
pub uninterp spec fn plain_reply_fallback_removed(body: Seq<char>) -> Seq<char>;

/// Relies on `ruma_html::sanitize_html` in its compatibility mode: the result
/// depends on the markup and the fallback choice alone.
#[verifier::external_body]
fn sanitize_html(html: &str, remove_reply_fallback: bool) -> (r: String)
    ensures
        r@ == html_sanitized(html@, remove_reply_fallback),
{
    let removal = if remove_reply_fallback {
        ruma::html::RemoveReplyFallback::Yes
    } else {
        ruma::html::RemoveReplyFallback::No
    };
    ruma::html::sanitize_html(html, ruma::html::HtmlSanitizerMode::Compat, removal)
}

/// Relies on `ruma::events::room::message::sanitize::remove_plain_reply_fallback`:
/// the result depends on the body alone.
#[verifier::external_body]
fn remove_plain_reply_fallback(body: &str) -> (r: String)
    ensures
        r@ == plain_reply_fallback_removed(body@),
{
    ruma::events::room::message::sanitize::remove_plain_reply_fallback(body).to_owned()
}

/// `out` is `inp` with an HTML body sanitised; other formats stay as they are.
pub open spec fn formatted_sanitized(
    out: Option<FormattedBody>,
    inp: Option<FormattedBody>,
    remove_reply_fallback: bool,
) -> bool {
    match inp {
        None => out is None,
        Some(f) => out matches Some(g) && g.format == f.format && g.body@ == if f.format is Html {
            html_sanitized(f.body@, remove_reply_fallback)
        } else {
            f.body@
        },
    }
}

/// `out` is the sanitised form of the text content `inp`.
pub open spec fn text_sanitized(
    out: TextMessageContent,
    inp: TextMessageContent,
    remove_reply_fallback: bool,
) -> bool {
    &&& out.body@ == if remove_reply_fallback {
        plain_reply_fallback_removed(inp.body@)
    } else {
        inp.body@
    }
    &&& formatted_sanitized(out.formatted, inp.formatted, remove_reply_fallback)
}

/// `out` is the sanitised form of `inp`: text, emote and notice bodies are
/// cleaned, every other shape is kept as it is.
pub open spec fn sanitized_form(out: MessageType, inp: MessageType, remove_reply_fallback: bool) -> bool {
    match inp {
        MessageType::Emote(c) => out matches MessageType::Emote(o) && text_sanitized(o, c, remove_reply_fallback),
        MessageType::Notice(c) => out matches MessageType::Notice(o) && text_sanitized(o, c, remove_reply_fallback),
        MessageType::Text(c) => out matches MessageType::Text(o) && text_sanitized(o, c, remove_reply_fallback),
        _ => out == inp,
    }
}

fn sanitize_formatted(f: Option<FormattedBody>, remove_reply_fallback: bool) -> (r: Option<FormattedBody>)
    ensures
        formatted_sanitized(r, f, remove_reply_fallback),
{
    match f {
        None => None,
        Some(f) => {
            let body = match &f.format {
                MessageFormat::Html => sanitize_html(f.body.as_str(), remove_reply_fallback),
                MessageFormat::Custom(_) => f.body,
            };
            Some(FormattedBody { format: f.format, body })
        },
    }
}

fn sanitize_text(c: TextMessageContent, remove_reply_fallback: bool) -> (r: TextMessageContent)
    ensures
        text_sanitized(r, c, remove_reply_fallback),
{
    let body = if remove_reply_fallback {
        remove_plain_reply_fallback(c.body.as_str())
    } else {
        c.body
    };
    TextMessageContent { body, formatted: sanitize_formatted(c.formatted, remove_reply_fallback) }
}

/// Sanitises the bodies of a message for display, removing the reply fallback
/// if asked to.
pub fn sanitize_message_type(m: MessageType, remove_reply_fallback: bool) -> (r: MessageType)
    ensures
        sanitized_form(r, m, remove_reply_fallback),
{
    match m {
        MessageType::Emote(c) => MessageType::Emote(sanitize_text(c, remove_reply_fallback)),
        MessageType::Notice(c) => MessageType::Notice(sanitize_text(c, remove_reply_fallback)),
        MessageType::Text(c) => MessageType::Text(sanitize_text(c, remove_reply_fallback)),
        other => other,
    }
}

/// A displayable message.
#[derive(Clone, Debug, PartialEq, Eq)]
pub struct Message {
    pub msgtype: MessageType,
    /// Whether an edit replaced the original content; never goes back to false.
    pub edited: bool,
}

/// `after` is what an edit with `new_content` leaves.
pub open spec fn edited_to(after: Message, new_content: MessageType) -> bool {
    after.edited && sanitized_form(after.msgtype, new_content, false)
}

/// `r` is the message shown for an original with content `msgtype` and the
/// bundled edit `edit`, if any.
pub open spec fn built_message(r: Message, msgtype: MessageType, edit: Option<MessageType>) -> bool {
    match edit {
        None => !r.edited && sanitized_form(r.msgtype, msgtype, true),
        Some(e) => edited_to(r, e),
    }
}

impl Message {
    /// The message shown for an original event, with the bundled edit folded
    /// in when there is one.
    pub fn from_event(msgtype: MessageType, edit: Option<MessageType>) -> (r: Message)
        ensures
            built_message(r, msgtype, edit),
    {
        let mut msg = Message { msgtype: sanitize_message_type(msgtype, true), edited: false };
        if let Some(edit) = edit {
            msg.apply_edit(edit);
        }
        msg
    }

    /// Replaces the content wholesale with an edit's. Edits carry no reply
    /// fallback of their own, so none is removed.
    pub fn apply_edit(&mut self, new_content: MessageType)
        ensures
            edited_to(*final(self), new_content),
    {
        self.edited = true;
        self.msgtype = sanitize_message_type(new_content, false);
    }
}

/// Along any run of edits, once a message is marked edited it stays so, and
/// after the last edit it shows that edit's content and no earlier one.
pub proof fn lemma_edit_sequence(states: Seq<Message>, edits: Seq<MessageType>)
    requires
        states.len() == edits.len() + 1,
        forall|i: int| 0 <= i < edits.len() ==> edited_to(#[trigger] states[i + 1], edits[i]),
    ensures
        forall|i: int, j: int|
            0 <= i <= j < states.len() && (#[trigger] states[i]).edited ==> (#[trigger] states[j]).edited,
        edits.len() > 0 ==> edited_to(states.last(), edits.last()),
{
    assert forall|i: int, j: int|
        0 <= i <= j < states.len() && (#[trigger] states[i]).edited implies (#[trigger] states[j]).edited by {
        if j > 0 {
            assert(edited_to(states[(j - 1) + 1], edits[j - 1]));
        }
    }
    if edits.len() > 0 {
        assert(edited_to(states[(edits.len() - 1) + 1], edits[edits.len() - 1]));
    }
}

} // verus!
