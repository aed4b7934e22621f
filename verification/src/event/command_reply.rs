//! Replies to commands.
use crate::error::{Fault, SocketError};
use crate::event::message::{expected_content_type, header_value, FromText, Message, MessageView};
use crate::event::{content_types, FromMessage};
use crate::text::{same_text, trimmed};
use std::str::FromStr;
use vstd::prelude::*;

verus! {

/// The form of the text of a reply.
pub const REPLY_PATTERN: &'static str = "^(\\+OK|\\-ERR)(.*)$";

/// `text` is `verb` and more on the same line.
pub open spec fn is_reply(text: Seq<char>, verb: Seq<char>) -> bool {
    &&& verb.is_prefix_of(text)
    &&& !text.skip(verb.len() as int).contains('\n')
}

/// `Regex::new` and `Regex::captures`, with the pattern of a reply: the two groups of the match.
///
/// The pattern is anchored at both ends, its first group matches `+OK` or `-ERR`, and its second
/// group everything after that which is not a line feed.
#[verifier::external_body]
fn reply_groups(pattern: &str, text: &str) -> (groups: Option<(String, String)>)
    requires
        pattern@ == REPLY_PATTERN@,
    ensures
        match groups {
            Some((verb, rest)) => {
                &&& verb@ == "+OK"@ || verb@ == "-ERR"@
                &&& is_reply(text@, verb@)
                &&& rest@ == text@.skip(verb@.len() as int)
            },
            None => !is_reply(text@, "+OK"@) && !is_reply(text@, "-ERR"@),
        },
{
    regex::Regex::new(pattern).unwrap().captures(text).map(
        |groups| (groups[1].to_owned(), groups[2].to_owned()),
    )
}

/// A simple parse error.
#[derive(Debug, Clone)]
pub enum ParseError {
    ParseError(String),
}

impl View for ParseError {
    type V = Seq<char>;

    open spec fn view(&self) -> Seq<char> {
        match *self {
            ParseError::ParseError(text) => text@,
        }
    }
}

impl ParseError {
    /// The error as text.
    pub fn to_string(&self) -> (text: String)
        ensures
            text@ == "Parse error: `"@ + self@ + "`"@,
    {
        let ParseError::ParseError(cause) = self;
        let mut text = "Parse error: `".to_owned();
        text.append(cause.as_str());
        text.append("`");
        text
    }
}

/// The text of a reply: whether the command succeeded, and what else there is to say.
#[derive(Clone, PartialEq, Eq, Debug)]
pub enum ReplyText {
    Okay(Option<String>),
    Error(Option<String>),
}

/// The text of a reply, as far as it is a value.
pub enum ReplyTextView {
    Okay(Option<Seq<char>>),
    Error(Option<Seq<char>>),
}

/// A text that may be missing, as far as it is a value.
pub open spec fn text_view(text: Option<String>) -> Option<Seq<char>> {
    match text {
        Some(text) => Some(text@),
        None => None,
    }
}

impl View for ReplyText {
    type V = ReplyTextView;

    open spec fn view(&self) -> ReplyTextView {
        match *self {
            ReplyText::Okay(info) => ReplyTextView::Okay(text_view(info)),
            ReplyText::Error(info) => ReplyTextView::Error(text_view(info)),
        }
    }
}

/// What follows the verb begins with a space, if there is anything.
pub open spec fn is_info(rest: Seq<char>) -> bool {
    rest.len() > 0 ==> rest.first() == ' '
}

/// The info in what follows the verb: all but the white space around it.
pub open spec fn info(rest: Seq<char>) -> Option<Seq<char>> {
    if trimmed(rest).len() == 0 {
        None
    } else {
        Some(trimmed(rest))
    }
}

/// What the text of a reply stands for.
pub open spec fn reply_text(text: Seq<char>) -> Option<ReplyTextView> {
    let after_ok = text.skip("+OK"@.len() as int);
    let after_err = text.skip("-ERR"@.len() as int);
    if is_reply(text, "+OK"@) && is_info(after_ok) {
        Some(ReplyTextView::Okay(info(after_ok)))
    } else if is_reply(text, "-ERR"@) && is_info(after_err) {
        Some(ReplyTextView::Error(info(after_err)))
    } else {
        None
    }
}

impl FromStr for ReplyText {
    type Err = ParseError;

    fn from_str(text: &str) -> (reply: Result<ReplyText, ParseError>)
        ensures
            match reply {
                Ok(reply) => reply_text(text@) == Some(reply@),
                Err(error) => reply_text(text@) is None && error@ == text@,
            },
    {
        proof {
            reveal_strlit("+OK");
            reveal_strlit("-ERR");
            assert("+OK"@[0] == '+' && "-ERR"@[0] == '-');
            assert(is_reply(text@, "+OK"@) ==> text@[0] == '+');
            assert(is_reply(text@, "-ERR"@) ==> text@[0] == '-');
        }
        let (verb, rest) = match reply_groups(REPLY_PATTERN, text) {
            Some(groups) => groups,
            None => return Err(ParseError::ParseError(text.to_owned())),
        };
        if !rest.as_str().is_empty() && rest.as_str().get_char(0) != ' ' {
            // Info, if any, must begin with a space.
            return Err(ParseError::ParseError(text.to_owned()));
        }
        let info = rest.as_str().trim();
        let info = if info.is_empty() {
            None
        } else {
            Some(info.to_owned())
        };
        if same_text(verb.as_str(), "+OK") {
            Ok(ReplyText::Okay(info))
        } else {
            Ok(ReplyText::Error(info))
        }
    }
}

impl FromText for ReplyText {
    open spec fn read(text: Seq<char>) -> Result<ReplyTextView, Fault> {
        match reply_text(text) {
            Some(reply) => Ok(reply),
            None => Err(Fault::InvalidReplyText(text)),
        }
    }

    fn from_text(text: &str) -> (value: Result<ReplyText, SocketError>) {
        match ReplyText::from_str(text) {
            Ok(reply) => Ok(reply),
            Err(error) => Err(SocketError::InvalidReplyText(error)),
        }
    }
}

/// The reply to a command.
#[derive(Clone, PartialEq, Eq, Debug)]
pub struct CommandReply {
    pub reply_text: ReplyText,
}

impl View for CommandReply {
    type V = ReplyTextView;

    open spec fn view(&self) -> ReplyTextView {
        self.reply_text@
    }
}

impl FromMessage for CommandReply {
    open spec fn read_message(message: MessageView) -> Result<ReplyTextView, Fault> {
        match expected_content_type(message.headers, "command/reply"@) {
            Err(fault) => Err(fault),
            Ok(()) => match header_value(message.headers, "Reply-Text"@) {
                None => Err(Fault::MissingHeader("Reply-Text"@)),
                Some(text) => ReplyText::read(text),
            },
        }
    }

    fn from_message(message: Message) -> (reply: Result<CommandReply, SocketError>) {
        match message.expect_content_type(&content_types().command_reply) {
            Err(error) => Err(error),
            Ok(()) => match message.get::<ReplyText>("Reply-Text") {
                Ok(reply_text) => Ok(CommandReply { reply_text }),
                Err(error) => Err(error),
            },
        }
    }
}

} // verus!
