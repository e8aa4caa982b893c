//! One-time messages for the operator, and how a page renders them.

use crate::http::Response;
use vstd::prelude::*;
use vstd::string::StringExecFns;

verus! {

/// How grave a flash message is.
#[derive(Debug, Clone, Copy, PartialEq, Eq, Structural)]
pub enum Level {
    Info,
    Error,
}

/// A one-time message that is shown to the operator on the next page.
#[derive(Debug, PartialEq, Eq)]
pub struct FlashMessage {
    pub level: Level,
    pub content: String,
}

impl FlashMessage {
    /// An informational message.
    pub fn info(content: String) -> (message: FlashMessage)
        ensures
            message.level == Level::Info,
            message.content == content,
    {
        FlashMessage { level: Level::Info, content }
    }

    /// An error message.
    pub fn error(content: String) -> (message: FlashMessage)
        ensures
            message.level == Level::Error,
            message.content == content,
    {
        FlashMessage { level: Level::Error, content }
    }
}

/// What a handler answers: a response and, with it, a message for the next
/// page.
#[derive(Debug, PartialEq, Eq)]
pub struct Reply {
    pub response: Response,
    pub flash: Option<FlashMessage>,
}

/// The markup of one message: its content in an italic paragraph, on a line
/// of its own.
pub open spec fn message_markup(content: Seq<char>) -> Seq<char> {
    "<p><i>"@ + content + "</i></p>\n"@
}

/// The markup of a list of messages: that of each, in order.
pub open spec fn messages_markup(messages: Seq<FlashMessage>) -> Seq<char>
    decreases messages.len(),
{
    if messages.len() == 0 {
        Seq::empty()
    } else {
        messages_markup(messages.drop_last()) + message_markup(messages.last().content@)
    }
}

/// Renders the messages that a page shows.
pub fn render_messages(messages: &Vec<FlashMessage>) -> (markup: String)
    ensures
        markup@ == messages_markup(messages@),
{
    let mut markup = String::new();
    let mut i: usize = 0;
    while i < messages.len()
        invariant
            i <= messages.len(),
            markup@ == messages_markup(messages@.take(i as int)),
        decreases messages.len() - i,
    {
        proof {
            assert(messages@.take(i + 1).drop_last() =~= messages@.take(i as int));
        }
        let ghost before = markup@;
        markup.append("<p><i>");
        markup.append(messages[i].content.as_str());
        markup.append("</i></p>\n");
        assert(markup@ =~= before + message_markup(messages[i as int].content@));
        i += 1;
    }
    assert(messages@.take(i as int) =~= messages@);
    markup
}

} // verus!
