//! The commands of a client, and what their replies stand for.
use crate::error::{Fault, SocketError};
use crate::event::command_reply::{text_view, CommandReply, ReplyText, ReplyTextView};
use crate::event::message::{Message, MessageView};
use crate::event::FromMessage;
use crate::text::lemma_encode_scalar_ascii;
use vstd::prelude::*;
use vstd::utf8::{encode_scalar, encode_utf8};

pub mod call_laws;
pub mod laws;

verus! {

/// The character that stands for `c` after a backslash, if `c` is escaped.
pub open spec fn escape_letter(c: char) -> Option<char> {
    if c == '\'' || c == '"' {
        Some(c)
    } else if c == '\n' {
        Some('n')
    } else if c == '\r' {
        Some('r')
    } else if c == '\t' {
        Some('t')
    } else if c == ' ' {
        Some('s')
    } else {
        None
    }
}

/// A character, escaped if need be.
pub open spec fn escaped_char(c: char) -> Seq<char> {
    match escape_letter(c) {
        Some(letter) => seq!['\\', letter],
        None => seq![c],
    }
}

/// A text with its quotes and its white space escaped.
pub open spec fn escaped(text: Seq<char>) -> Seq<char>
    decreases text.len(),
{
    if text.len() == 0 {
        Seq::empty()
    } else {
        escaped_char(text.first()) + escaped(text.drop_first())
    }
}

/// A byte of a text, escaped if need be.
spec fn escaped_byte(byte: u8) -> Seq<u8> {
    match escape_letter(byte as char) {
        Some(letter) => seq![0x5C, letter as u8],
        None => seq![byte],
    }
}

/// The bytes of a text, escaped.
spec fn escaped_bytes(bytes: Seq<u8>) -> Seq<u8>
    decreases bytes.len(),
{
    if bytes.len() == 0 {
        Seq::empty()
    } else {
        escaped_bytes(bytes.drop_last()) + escaped_byte(bytes.last())
    }
}

proof fn lemma_escaped_bytes_concat(a: Seq<u8>, b: Seq<u8>)
    ensures
        escaped_bytes(a + b) == escaped_bytes(a) + escaped_bytes(b),
    decreases b.len(),
{
    if b.len() == 0 {
        assert(a + b =~= a);
        assert(escaped_bytes(a) + escaped_bytes(b) =~= escaped_bytes(a));
    } else {
        lemma_escaped_bytes_concat(a, b.drop_last());
        assert((a + b).drop_last() =~= a + b.drop_last());
        assert(escaped_bytes(a) + escaped_bytes(b) =~= (escaped_bytes(a) + escaped_bytes(
            b.drop_last(),
        )) + escaped_byte(b.last()));
    }
}

/// Bytes of characters that are not ASCII stay as they are.
proof fn lemma_escaped_bytes_stay(bytes: Seq<u8>)
    requires
        forall|i: int| 0 <= i < bytes.len() ==> #[trigger] bytes[i] >= 0x80,
    ensures
        escaped_bytes(bytes) == bytes,
    decreases bytes.len(),
{
    if bytes.len() > 0 {
        lemma_escaped_bytes_stay(bytes.drop_last());
        assert(bytes[bytes.len() - 1] >= 0x80);
        assert(bytes.drop_last() + seq![bytes.last()] =~= bytes);
    }
}

/// To encode two texts one after the other is to encode them together.
proof fn lemma_encode_utf8_concat(a: Seq<char>, b: Seq<char>)
    ensures
        encode_utf8(a + b) == encode_utf8(a) + encode_utf8(b),
    decreases a.len(),
{
    if a.len() == 0 {
        assert(a + b =~= b);
        assert(encode_utf8(a) + encode_utf8(b) =~= encode_utf8(b));
    } else {
        lemma_encode_utf8_concat(a.drop_first(), b);
        assert((a + b).drop_first() =~= a.drop_first() + b);
        assert(encode_utf8(a) + encode_utf8(b) =~= encode_scalar(a[0] as u32) + (encode_utf8(
            a.drop_first(),
        ) + encode_utf8(b)));
    }
}

/// To escape a character is to escape its bytes.
proof fn lemma_escaped_char(c: char)
    ensures
        escaped_bytes(encode_scalar(c as u32)) == encode_utf8(escaped_char(c)),
{
    let bytes = encode_scalar(c as u32);
    lemma_encode_scalar_ascii(c);
    assert(seq![c].drop_first() =~= Seq::<char>::empty());
    assert(encode_utf8(Seq::<char>::empty()) =~= Seq::<u8>::empty());
    assert(encode_utf8(seq![c]) =~= bytes);
    if (c as u32) < 0x80 {
        assert(bytes.drop_last() =~= Seq::<u8>::empty());
        assert(escaped_bytes(Seq::<u8>::empty()) =~= Seq::<u8>::empty());
        assert(escaped_bytes(bytes) =~= escaped_byte(c as u8));
        if let Some(letter) = escape_letter(c) {
            lemma_encode_scalar_ascii('\\');
            lemma_encode_scalar_ascii(letter);
            assert(seq!['\\', letter].drop_first() =~= seq![letter]);
            assert(seq![letter].drop_first() =~= Seq::<char>::empty());
            assert(encode_utf8(seq![letter]) =~= seq![letter as u8]);
            assert(encode_utf8(seq!['\\', letter]) =~= seq![0x5Cu8, letter as u8]);
        }
    } else {
        lemma_escaped_bytes_stay(bytes);
    }
}

/// To escape a text is to escape its bytes.
proof fn lemma_escaped(text: Seq<char>)
    ensures
        escaped_bytes(encode_utf8(text)) == encode_utf8(escaped(text)),
    decreases text.len(),
{
    if text.len() > 0 {
        lemma_escaped(text.drop_first());
        lemma_escaped_char(text.first());
        lemma_escaped_bytes_concat(
            encode_scalar(text[0] as u32),
            encode_utf8(text.drop_first()),
        );
        lemma_encode_utf8_concat(escaped_char(text.first()), escaped(text.drop_first()));
    } else {
        assert(encode_utf8(text) =~= Seq::<u8>::empty());
        assert(escaped_bytes(Seq::<u8>::empty()) =~= Seq::<u8>::empty());
        assert(encode_utf8(escaped(text)) =~= Seq::<u8>::empty());
    }
}

/// Escapes an argument of a command.
///
/// See `cleanup_separated_string()` and `unescape_char()` in FreeSWITCH's `switch_util.c`.
pub fn escape_argument(text: &str) -> (argument: String)
    ensures
        argument@ == escaped(text@),
{
    let bytes = text.as_bytes();
    let length: usize = bytes.len();
    let mut result: Vec<u8> = Vec::new();
    let mut i: usize = 0;
    assert(bytes@.take(0) =~= Seq::<u8>::empty());
    // The most significant bit is always set in the bytes of an encoded character that is not
    // ASCII.
    while i < length
        invariant
            i <= length,
            length == bytes@.len(),
            result@ == escaped_bytes(bytes@.take(i as int)),
        decreases length - i,
    {
        let byte: u8 = bytes[i];
        assert(bytes@.take(i + 1).drop_last() =~= bytes@.take(i as int));
        assert(bytes@.take(i + 1).last() == byte);
        let letter: Option<u8> = match byte {
            0x27 => Some(0x27),
            0x22 => Some(0x22),
            0x0A => Some(0x6E),
            0x0D => Some(0x72),
            0x09 => Some(0x74),
            0x20 => Some(0x73),
            _ => None,
        };
        match letter {
            Some(letter) => {
                result.push(0x5C);
                result.push(letter);
            },
            None => result.push(byte),
        }
        assert(result@ =~= escaped_bytes(bytes@.take(i as int)) + escaped_byte(byte));
        i = i + 1;
    }
    proof {
        assert(bytes@.take(i as int) =~= bytes@);
        lemma_escaped(text@);
        vstd::utf8::encode_utf8_valid_utf8(escaped(text@));
        vstd::utf8::encode_utf8_decode_utf8(escaped(text@));
    }
    String::from_utf8(result).unwrap()
}

/// What is wrong with the arguments of a command.
#[derive(Clone, PartialEq, Eq, Debug)]
pub enum ArgumentError {
    /// A 'like' string has a `'` or a `;` in it.
    InvalidLike,
    /// More variables to match than `hupall` takes.
    TooManyVariables,
}

impl ArgumentError {
    /// The error as text.
    pub fn to_string(&self) -> (text: String)
        ensures
            text@ == match *self {
                ArgumentError::InvalidLike => "'like' strings can not contain `'` or `;`"@,
                ArgumentError::TooManyVariables => "`hupall` can match a maximum of 5 variables"@,
            },
    {
        match self {
            ArgumentError::InvalidLike => "'like' strings can not contain `'` or `;`".to_owned(),
            ArgumentError::TooManyVariables => {
                "`hupall` can match a maximum of 5 variables".to_owned()
            },
        }
    }
}

/// What a 'like' string is sent as.
pub open spec fn like_literal(like: Seq<char>) -> Result<Seq<char>, ArgumentError> {
    if like.contains('\'') || like.contains(';') {
        Err(ArgumentError::InvalidLike)
    } else {
        Ok(escaped(like))
    }
}

/// A result with a text, as far as it is a value.
pub open spec fn text_outcome<E>(result: Result<String, E>) -> Result<Seq<char>, E> {
    match result {
        Ok(text) => Ok(text@),
        Err(error) => Err(error),
    }
}

/// Escapes a 'like' string.
pub fn validate_and_escape_like_literal(like: &str) -> (literal: Result<String, ArgumentError>)
    ensures
        text_outcome(literal) == like_literal(like@),
{
    if has_char(like, '\'') || has_char(like, ';') {
        Err(ArgumentError::InvalidLike)
    } else {
        Ok(escape_argument(like))
    }
}

/// Whether a character is in a text.
fn has_char(text: &str, c: char) -> (found: bool)
    ensures
        found == text@.contains(c),
{
    let length: usize = text.unicode_len();
    let mut i: usize = 0;
    while i < length
        invariant
            i <= length,
            length == text@.len(),
            forall|j: int| 0 <= j < i ==> #[trigger] text@[j] != c,
        decreases length - i,
    {
        if text.get_char(i) == c {
            assert(text@[i as int] == c);
            return true;
        }
        i = i + 1;
    }
    false
}

/// The command to authenticate with a password.
pub fn auth_command(password: &str) -> (cmd: String)
    ensures
        cmd@ == "auth "@ + password@,
{
    let mut cmd = "auth ".to_owned();
    cmd.append(password);
    cmd
}

/// The command that has an api command executed.
pub fn api_command(cmd: &str) -> (api: String)
    ensures
        api@ == "api "@ + cmd@,
{
    let mut api = "api ".to_owned();
    api.append(cmd);
    api
}

/// The api command for all channels.
pub open spec fn show_channels(like: Option<Seq<char>>) -> Result<Seq<char>, ArgumentError> {
    match like {
        None => Ok("show channels as json"@),
        Some(like) => match like_literal(like) {
            Err(error) => Err(error),
            Ok(literal) => Ok("show channels like "@ + literal + " as json"@),
        },
    }
}

/// The api command to get all channels, or all those that are like a string.
pub fn channels_command(like: Option<&str>) -> (cmd: Result<String, ArgumentError>)
    ensures
        text_outcome(cmd) == show_channels(
            match like {
                Some(like) => Some(like@),
                None => None,
            },
        ),
{
    match like {
        None => Ok("show channels as json".to_owned()),
        Some(like) => match validate_and_escape_like_literal(like) {
            Err(error) => Err(error),
            Ok(literal) => {
                let mut cmd = "show channels like ".to_owned();
                cmd.append(literal.as_str());
                cmd.append(" as json");
                Ok(cmd)
            },
        },
    }
}

/// The api command to get the number of channels.
pub fn channels_count_command() -> (cmd: String)
    ensures
        cmd@ == "show channels count as json"@,
{
    "show channels count as json".to_owned()
}

/// The api command that keeps a connection alive.
pub fn keepalive_command() -> (cmd: String)
    ensures
        cmd@ == "echo keepalive"@,
{
    "echo keepalive".to_owned()
}

/// The most variables that `hupall` can match.
///
/// See <https://github.com/signalwire/freeswitch/blob/v1.10.7/src/mod/applications/mod_commands/mod_commands.c#L6688>.
pub const MAX_VARIABLE_MATCHES: usize = 5;

/// Arguments with a space between each two.
pub open spec fn joined(args: Seq<Seq<char>>) -> Seq<char>
    decreases args.len(),
{
    if args.len() == 0 {
        Seq::empty()
    } else if args.len() == 1 {
        args.last()
    } else {
        joined(args.drop_last()).push(' ') + args.last()
    }
}

/// The arguments that stand for variables to match: the name and the value of each, escaped.
pub open spec fn match_args(matches: Seq<(Seq<char>, Seq<char>)>) -> Seq<Seq<char>>
    decreases matches.len(),
{
    if matches.len() == 0 {
        Seq::empty()
    } else {
        match_args(matches.drop_last()).push(escaped(matches.last().0)).push(
            escaped(matches.last().1),
        )
    }
}

/// Variables to match, as far as they are values.
pub open spec fn matches_view(matches: Seq<(&str, &str)>) -> Seq<(Seq<char>, Seq<char>)> {
    matches.map_values(|pair: (&str, &str)| (pair.0@, pair.1@))
}

/// The api command that hangs up all channels for a cause, if the variables match.
pub open spec fn hupall(cause: Seq<char>, matches: Seq<(Seq<char>, Seq<char>)>) -> Result<
    Seq<char>,
    ArgumentError,
> {
    if matches.len() > MAX_VARIABLE_MATCHES {
        Err(ArgumentError::TooManyVariables)
    } else {
        Ok("hupall "@ + cause + " "@ + joined(match_args(matches)))
    }
}

/// The api command that hangs up all channels for a cause, if the variables match.
pub fn hupall_command(cause: &str, variable_matches: &[(&str, &str)]) -> (cmd: Result<
    String,
    ArgumentError,
>)
    ensures
        text_outcome(cmd) == hupall(cause@, matches_view(variable_matches@)),
{
    let length: usize = variable_matches.len();
    if length > MAX_VARIABLE_MATCHES {
        return Err(ArgumentError::TooManyVariables);
    }
    let ghost all = matches_view(variable_matches@);
    let mut var_args = String::new();
    let mut i: usize = 0;
    assert(all.take(0) =~= Seq::<(Seq<char>, Seq<char>)>::empty());
    assert(var_args@ =~= Seq::<char>::empty());
    while i < length
        invariant
            i <= length,
            length == variable_matches@.len(),
            all == matches_view(variable_matches@),
            var_args@ == joined(match_args(all.take(i as int))),
            match_args(all.take(i as int)).len() == 2 * i,
        decreases length - i,
    {
        let (name, value) = variable_matches[i];
        let ghost before = match_args(all.take(i as int));
        assert(all.take(i + 1).drop_last() =~= all.take(i as int));
        assert(all.take(i + 1).last() == (name@, value@));
        let name = escape_argument(name);
        let value = escape_argument(value);
        if i > 0 {
            var_args.append(" ");
        }
        var_args.append(name.as_str());
        var_args.append(" ");
        var_args.append(value.as_str());
        proof {
            reveal_strlit(" ");
            let with_name = before.push(name@);
            assert(with_name.drop_last() =~= before);
            assert(with_name.push(value@).drop_last() =~= with_name);
            assert(joined(with_name) =~= if i > 0 {
                joined(before) + " "@ + name@
            } else {
                joined(before) + name@
            });
            assert(joined(with_name.push(value@)) =~= joined(with_name) + " "@ + value@);
        }
        i = i + 1;
    }
    assert(all.take(i as int) =~= all);
    let mut cmd = "hupall ".to_owned();
    cmd.append(cause);
    cmd.append(" ");
    cmd.append(var_args.as_str());
    Ok(cmd)
}

/// Why a command failed.
#[derive(Debug)]
pub enum CommandError {
    /// The reply is none.
    Reply(SocketError),
    /// The reply says that the command failed, and perhaps why.
    Failed { cmd: String, info: Option<String> },
}

/// Why a command failed, as far as it is a value.
pub enum CommandFault {
    Reply(Fault),
    Failed { cmd: Seq<char>, info: Option<Seq<char>> },
}

impl View for CommandError {
    type V = CommandFault;

    open spec fn view(&self) -> CommandFault {
        match *self {
            CommandError::Reply(error) => CommandFault::Reply(error@),
            CommandError::Failed { cmd, info } => CommandFault::Failed {
                cmd: cmd@,
                info: text_view(info),
            },
        }
    }
}

/// What the reply to a command stands for: the info that came with it, if any.
pub open spec fn command_result(cmd: Seq<char>, response: MessageView) -> Result<
    Option<Seq<char>>,
    CommandFault,
> {
    match CommandReply::read_message(response) {
        Err(fault) => Err(CommandFault::Reply(fault)),
        Ok(ReplyTextView::Okay(info)) => Ok(info),
        Ok(ReplyTextView::Error(info)) => Err(CommandFault::Failed { cmd, info }),
    }
}

/// Reads the reply to a command.
///
/// - If the reply text starts with `+OK`, returns the info text attached to the `Reply-Text` header
///   if any.
/// - If the reply text starts with `-ERR`, returns an error.
pub fn read_reply(cmd: &str, response: Message) -> (info: Result<Option<String>, CommandError>)
    ensures
        match info {
            Ok(info) => command_result(cmd@, response@) == Ok::<_, CommandFault>(text_view(info)),
            Err(error) => command_result(cmd@, response@) == Err::<Option<Seq<char>>, _>(error@),
        },
{
    match CommandReply::from_message(response) {
        Err(error) => Err(CommandError::Reply(error)),
        Ok(reply) => match reply.reply_text {
            ReplyText::Okay(info) => Ok(info),
            ReplyText::Error(info) => Err(CommandError::Failed { cmd: cmd.to_owned(), info }),
        },
    }
}

/// What is said of a command that failed.
pub open spec fn failure(cmd: Seq<char>, info: Option<Seq<char>>) -> Seq<char> {
    "Command `"@ + cmd + "` failed"@ + match info {
        Some(info) => ": "@ + info,
        None => Seq::empty(),
    }
}

/// What is said of a command that failed.
pub fn failure_text(cmd: &str, info: Option<&str>) -> (text: String)
    ensures
        text@ == failure(
            cmd@,
            match info {
                Some(info) => Some(info@),
                None => None,
            },
        ),
{
    let mut text = "Command `".to_owned();
    text.append(cmd);
    text.append("` failed");
    let ghost before = text@;
    if let Some(info) = info {
        text.append(": ");
        text.append(info);
        assert(text@ =~= before + (": "@ + info@));
    } else {
        assert(before =~= before + Seq::<char>::empty());
    }
    text
}

} // verus!
