//! What holds of every call of the functions for commands.
use crate::client::laws::{
    ends_argument, law_channels_are_like_the_string, law_commands_succeed_with_ok_alone,
    law_escaped_is_one_argument, law_escaping_can_be_undone, law_failed_commands_are_errors,
    law_failures_name_the_command, law_hupall_names_each_variable, split, unescaped,
};
use crate::client::{
    api_command, auth_command, channels_command, channels_count_command, escape_argument, escaped,
    failure_text, hupall_command, keepalive_command, matches_view, read_reply,
    validate_and_escape_like_literal, ArgumentError, CommandError,
};
use crate::event::content_laws::{is_of_type, is_said_in};
use crate::event::header_laws::says;
use crate::event::message::Message;
use vstd::prelude::*;

verus! {

/// To authenticate is to send `auth `, and then the password, all of it and nothing more.
pub proof fn law_auth_carries_the_password(password: &str, cmd: String)
    requires
        call_ensures(auth_command, (password,), cmd),
    ensures
        cmd@.len() == 5 + password@.len(),
        cmd@.take(5) == seq!['a', 'u', 't', 'h', ' '],
        cmd@.skip(5) == password@,
{
    reveal_strlit("auth ");
    assert(cmd@.take(5) =~= "auth "@);
    assert("auth "@ =~= seq!['a', 'u', 't', 'h', ' ']);
    assert(cmd@.skip(5) =~= password@);
}

/// To have an api command executed is to send `api `, and then the command, all of it and nothing
/// more.
pub proof fn law_api_carries_the_command(cmd: &str, api: String)
    requires
        call_ensures(api_command, (cmd,), api),
    ensures
        api@.len() == 4 + cmd@.len(),
        api@.take(4) == seq!['a', 'p', 'i', ' '],
        api@.skip(4) == cmd@,
{
    reveal_strlit("api ");
    assert(api@.take(4) =~= "api "@);
    assert("api "@ =~= seq!['a', 'p', 'i', ' ']);
    assert(api@.skip(4) =~= cmd@);
}

/// The commands without arguments are always the same.
pub proof fn law_commands_without_arguments(count: String, keepalive: String)
    ensures
        call_ensures(channels_count_command, (), count) ==> count@ == "show channels count as json"@,
        call_ensures(keepalive_command, (), keepalive) ==> keepalive@ == "echo keepalive"@,
{
}

/// An escaped argument has no white space in it that would end it, and can be unescaped again if
/// there is no backslash in it. It is refused in a 'like' string if there is a `'` or a `;` in it,
/// and taken otherwise.
pub proof fn law_arguments_are_escaped(
    text: &str,
    argument: String,
    literal: Result<String, ArgumentError>,
    i: int,
)
    requires
        call_ensures(escape_argument, (text,), argument),
        call_ensures(validate_and_escape_like_literal, (text,), literal),
    ensures
        0 <= i < argument@.len() ==> !ends_argument(argument@[i]),
        !text@.contains('\\') ==> unescaped(argument@) == text@,
        literal is Err <==> text@.contains('\'') || text@.contains(';'),
        literal matches Ok(literal) ==> literal@ == argument@,
{
    law_escaped_is_one_argument(text@);
    if !text@.contains('\\') {
        law_escaping_can_be_undone(text@);
    }
}

/// The command for channels has the string that they are like in it, unless that is refused.
pub proof fn law_channels_command_has_the_string(
    like: &str,
    all: Result<String, ArgumentError>,
    cmd: Result<String, ArgumentError>,
)
    requires
        call_ensures(channels_command, (None::<&str>,), all),
        call_ensures(channels_command, (Some(like),), cmd),
    ensures
        all matches Ok(all) && all@ == "show channels as json"@,
        cmd is Err <==> like@.contains('\'') || like@.contains(';'),
        cmd matches Ok(cmd) ==> cmd@ == "show channels like "@ + escaped(like@) + " as json"@,
        !like@.contains('\\') ==> (cmd matches Ok(cmd) ==> {
            let start = "show channels like "@;
            let end = " as json"@;
            unescaped(cmd@.subrange(start.len() as int, cmd@.len() - end.len())) == like@
        }),
{
    law_channels_are_like_the_string(like@);
}

/// To hang up is to send the cause, and then the name and the value of each variable, escaped, with
/// a space between each two, for at most five variables.
pub proof fn law_hupall_command_names_each_variable(
    cause: &str,
    matches: &[(&str, &str)],
    cmd: Result<String, ArgumentError>,
    i: int,
)
    requires
        call_ensures(hupall_command, (cause, matches), cmd),
    ensures
        cmd is Err <==> matches@.len() > 5,
        cmd matches Ok(cmd) ==> {
            let start = "hupall "@ + cause@ + " "@;
            let args = split(cmd@.skip(start.len() as int));
            &&& start.is_prefix_of(cmd@)
            &&& matches@.len() == 0 ==> cmd@ == start
            &&& matches@.len() > 0 ==> args.len() == 2 * matches@.len()
            &&& 0 <= i < matches@.len() ==> args[2 * i] == escaped(matches@[i].0@)
            &&& 0 <= i < matches@.len() ==> args[2 * i + 1] == escaped(matches@[i].1@)
        },
{
    law_hupall_names_each_variable(cause@, matches_view(matches@), i);
    if matches@.len() == 0 {
        assert(matches_view(matches@) =~= Seq::<(Seq<char>, Seq<char>)>::empty());
    }
}

/// The reply to a command is an error with the command and with what the reply says if it begins with
/// `-ERR`, and it is what the reply says if it begins with `+OK`.
pub proof fn law_replies_are_read(
    cmd: &str,
    response: Message,
    info: Result<Option<String>, CommandError>,
    rest: Seq<char>,
    before: Seq<char>,
    said: Seq<char>,
    after: Seq<char>,
)
    requires
        call_ensures(read_reply, (cmd, response), info),
        is_of_type(response@, "command/reply"@),
        is_said_in(rest, before, said, after),
    ensures
        says(response@.headers, "Reply-Text"@, "-ERR"@ + rest) ==> (info matches Err(
            CommandError::Failed { cmd: failed, info },
        ) && failed@ == cmd@ && (said.len() > 0 ==> info is Some && info->0@ == said) && (said.len()
            == 0 ==> info is None)),
        says(response@.headers, "Reply-Text"@, "+OK"@ + rest) ==> (info matches Ok(info) && (
        said.len() > 0 ==> info is Some && info->0@ == said) && (said.len() == 0 ==> info is None)),
{
    law_failed_commands_are_errors(cmd@, response@, rest, before, said, after);
}

/// A command succeeds only by a reply whose `Reply-Text` begins with `+OK`.
pub proof fn law_success_is_an_ok(
    cmd: &str,
    response: Message,
    info: Result<Option<String>, CommandError>,
    text: Seq<char>,
)
    requires
        call_ensures(read_reply, (cmd, response), info),
        info is Ok,
        says(response@.headers, "Reply-Text"@, text),
    ensures
        "+OK"@.is_prefix_of(text),
        is_of_type(response@, "command/reply"@),
{
    law_commands_succeed_with_ok_alone(cmd@, response@, text);
}

/// What is said of a command that failed has the command in it, and what the reply said.
pub proof fn law_failures_are_told(cmd: &str, said: &str, short: String, long: String)
    requires
        call_ensures(failure_text, (cmd, None::<&str>), short),
        call_ensures(failure_text, (cmd, Some(said)), long),
    ensures
        short@ == "Command `"@ + cmd@ + "` failed"@,
        long@ == short@ + ": "@ + said@,
{
    law_failures_name_the_command(cmd@, said@);
}

/// What is wrong with arguments is told in words.
pub proof fn law_argument_errors_are_told(like: String, many: String)
    ensures
        call_ensures(ArgumentError::to_string, (&ArgumentError::InvalidLike,), like) ==> like@
            == "'like' strings can not contain `'` or `;`"@,
        call_ensures(ArgumentError::to_string, (&ArgumentError::TooManyVariables,), many) ==> many@
            == "`hupall` can match a maximum of 5 variables"@,
{
}

} // verus!
