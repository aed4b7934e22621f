//! What holds of commands and their arguments.
use crate::client::{
    command_result, escape_letter, escaped, escaped_char, failure, hupall, joined, like_literal,
    match_args, show_channels, ArgumentError, CommandFault,
};
use crate::error::Fault;
use crate::event::command_reply::CommandReply;
use crate::event::content_laws::{
    is_of_type, is_said_in, law_command_reply_is_its_reply_text, law_other_texts_are_no_reply,
    law_other_types_are_refused, law_reply_says_all_but_white_space,
    law_type_is_what_the_headers_say,
};
use crate::event::header_laws::{says, says_nothing};
use crate::event::laws::{law_content_type_decides, law_reply_says_what_it_begins_with};
use crate::event::message::MessageView;
use crate::event::FromMessage;
use vstd::prelude::*;

verus! {

/// White space that would end an argument.
pub open spec fn ends_argument(c: char) -> bool {
    c == ' ' || c == '\t' || c == '\n' || c == '\r'
}

/// A quote.
pub open spec fn is_quote(c: char) -> bool {
    c == '\'' || c == '"'
}

/// An escaped argument has no white space in it that would end it, and a backslash before each
/// quote.
pub proof fn law_escaped_is_one_argument(text: Seq<char>)
    ensures
        forall|i: int| 0 <= i < escaped(text).len() ==> !ends_argument(#[trigger] escaped(text)[i]),
        forall|i: int|
            0 <= i < escaped(text).len() && is_quote(#[trigger] escaped(text)[i]) ==> i > 0
                && escaped(text)[i - 1] == '\\',
    decreases text.len(),
{
    if text.len() > 0 {
        let first = escaped_char(text.first());
        let rest = escaped(text.drop_first());
        law_escaped_is_one_argument(text.drop_first());
        assert forall|i: int| 0 <= i < escaped(text).len() implies !ends_argument(
            #[trigger] escaped(text)[i],
        ) by {
            if i >= first.len() {
                assert(escaped(text)[i] == rest[i - first.len()]);
            } else {
                assert(escaped(text)[i] == first[i]);
            }
        }
        assert forall|i: int|
            0 <= i < escaped(text).len() && is_quote(#[trigger] escaped(text)[i]) implies i > 0
            && escaped(text)[i - 1] == '\\' by {
            if i >= first.len() {
                assert(escaped(text)[i] == rest[i - first.len()]);
                assert(i - first.len() > 0);
                assert(escaped(text)[i - 1] == rest[i - 1 - first.len()]);
            } else {
                assert(escaped(text)[i] == first[i]);
            }
        }
    }
}

/// The character that a letter after a backslash stands for.
pub open spec fn unescaped_letter(letter: char) -> char {
    if letter == 'n' {
        '\n'
    } else if letter == 'r' {
        '\r'
    } else if letter == 't' {
        '\t'
    } else if letter == 's' {
        ' '
    } else {
        letter
    }
}

/// A text with each backslash and the letter after it replaced by what they stand for.
pub open spec fn unescaped(text: Seq<char>) -> Seq<char>
    decreases text.len(),
{
    if text.len() == 0 {
        Seq::empty()
    } else if text.first() == '\\' && text.len() > 1 {
        seq![unescaped_letter(text[1])] + unescaped(text.skip(2))
    } else {
        seq![text.first()] + unescaped(text.skip(1))
    }
}

/// To unescape an escaped text gives the text back, if it has no backslash of its own.
pub proof fn law_escaping_can_be_undone(text: Seq<char>)
    requires
        !text.contains('\\'),
    ensures
        unescaped(escaped(text)) == text,
    decreases text.len(),
{
    if text.len() > 0 {
        let rest = text.drop_first();
        assert forall|i: int| 0 <= i < rest.len() implies rest[i] != '\\' by {
            assert(text.contains(text[i + 1]));
        }
        law_escaping_can_be_undone(rest);
        assert(text.contains(text[0]));
        match escape_letter(text.first()) {
            Some(_) => {
                assert(escaped(text).skip(2) =~= escaped(rest));
            },
            None => {
                assert(escaped(text).skip(1) =~= escaped(rest));
            },
        }
        assert(seq![text.first()] + rest =~= text);
    }
}

/// Two texts without backslashes are escaped alike only if they are the same.
pub proof fn law_escaping_keeps_texts_apart(a: Seq<char>, b: Seq<char>)
    requires
        !a.contains('\\'),
        !b.contains('\\'),
        escaped(a) == escaped(b),
    ensures
        a == b,
{
    law_escaping_can_be_undone(a);
    law_escaping_can_be_undone(b);
}

/// A 'like' string that is sent can not end the literal or the statement that it stands in.
pub proof fn law_like_literal_stays_inside(like: Seq<char>)
    ensures
        like_literal(like) matches Ok(literal) ==> !literal.contains('\'') && !literal.contains(
            ';',
        ),
{
    if !like.contains('\'') && !like.contains(';') {
        lemma_escaped_chars(like, '\'');
        lemma_escaped_chars(like, ';');
    }
}

/// A quote or a semicolon in an escaped text is one in the text.
proof fn lemma_escaped_chars(text: Seq<char>, c: char)
    requires
        c == '\'' || c == ';',
        !text.contains(c),
    ensures
        !escaped(text).contains(c),
    decreases text.len(),
{
    if text.len() > 0 {
        let first = escaped_char(text.first());
        let rest = text.drop_first();
        assert forall|i: int| 0 <= i < rest.len() implies rest[i] != c by {
            assert(text.contains(text[i + 1]));
        }
        lemma_escaped_chars(rest, c);
        assert(text.contains(text[0]));
        assert forall|i: int| 0 <= i < escaped(text).len() implies escaped(text)[i] != c by {
            if i < first.len() {
                assert(escaped(text)[i] == first[i]);
            } else {
                assert(escaped(text)[i] == escaped(rest)[i - first.len()]);
                assert(escaped(rest).contains(escaped(rest)[i - first.len()]));
            }
        }
    }
}

/// No argument has a space in it.
pub open spec fn are_arguments(args: Seq<Seq<char>>) -> bool {
    forall|i: int| 0 <= i < args.len() ==> !(#[trigger] args[i]).contains(' ')
}

/// Arguments that are joined can be told apart: one way only to part a text leads to it.
pub proof fn law_joined_arguments_can_be_told_apart(a: Seq<Seq<char>>, b: Seq<Seq<char>>)
    requires
        a.len() > 0,
        b.len() > 0,
        are_arguments(a),
        are_arguments(b),
        joined(a) == joined(b),
    ensures
        a == b,
    decreases a.len(),
{
    let text = joined(a);
    assert(!a[a.len() - 1].contains(' '));
    assert(!b[b.len() - 1].contains(' '));
    if a.len() == 1 && b.len() == 1 {
        assert(a =~= b);
    } else if a.len() == 1 {
        let at = joined(b.drop_last()).len() as int;
        assert(text[at] == ' ');
        assert(a.last().contains(text[at]));
    } else if b.len() == 1 {
        let at = joined(a.drop_last()).len() as int;
        assert(text[at] == ' ');
        assert(b.last().contains(text[at]));
    } else {
        let at_a = joined(a.drop_last()).len() as int;
        let at_b = joined(b.drop_last()).len() as int;
        assert(text == joined(a.drop_last()).push(' ') + a.last());
        assert(text == joined(b.drop_last()).push(' ') + b.last());
        assert(text[at_a] == ' ');
        assert(text[at_b] == ' ');
        if at_a < at_b {
            assert(text[at_b] == a.last()[at_b - at_a - 1]);
            assert(a.last().contains(a.last()[at_b - at_a - 1]));
        }
        if at_b < at_a {
            assert(text[at_a] == b.last()[at_a - at_b - 1]);
            assert(b.last().contains(b.last()[at_a - at_b - 1]));
        }
        assert(text.take(at_a) =~= joined(a.drop_last()));
        assert(text.take(at_b) =~= joined(b.drop_last()));
        assert(text.skip(at_a + 1) =~= a.last());
        assert(text.skip(at_b + 1) =~= b.last());
        assert forall|i: int| 0 <= i < a.drop_last().len() implies !(
        #[trigger] a.drop_last()[i]).contains(' ') by {
            assert(a.drop_last()[i] == a[i]);
        }
        assert forall|i: int| 0 <= i < b.drop_last().len() implies !(
        #[trigger] b.drop_last()[i]).contains(' ') by {
            assert(b.drop_last()[i] == b[i]);
        }
        law_joined_arguments_can_be_told_apart(a.drop_last(), b.drop_last());
        assert(a =~= a.drop_last().push(a.last()));
        assert(b =~= b.drop_last().push(b.last()));
    }
}

/// The arguments that stand for variables to match have no spaces in them, and there are two for
/// each.
pub proof fn law_variable_matches_are_arguments(matches: Seq<(Seq<char>, Seq<char>)>)
    ensures
        are_arguments(match_args(matches)),
        match_args(matches).len() == 2 * matches.len(),
    decreases matches.len(),
{
    if matches.len() > 0 {
        law_variable_matches_are_arguments(matches.drop_last());
        law_escaped_is_one_argument(matches.last().0);
        law_escaped_is_one_argument(matches.last().1);
    }
}

/// The command for channels is on one line, whatever they have to be like.
pub proof fn law_show_channels_is_one_line(like: Option<Seq<char>>)
    ensures
        show_channels(like) matches Ok(cmd) ==> !cmd.contains('\n'),
{
    reveal_strlit("show channels as json");
    reveal_strlit("show channels like ");
    reveal_strlit(" as json");
    if let Some(like) = like {
        law_escaped_is_one_argument(like);
    }
}

/// The command to hang up is on one line, whatever the variables have to match, if the cause is.
pub proof fn law_hupall_is_one_line(cause: Seq<char>, matches: Seq<(Seq<char>, Seq<char>)>)
    requires
        !cause.contains('\n'),
    ensures
        hupall(cause, matches) matches Ok(cmd) ==> !cmd.contains('\n'),
{
    reveal_strlit("hupall ");
    reveal_strlit(" ");
    lemma_match_args_have_no_lines(matches);
    lemma_joined_has_no_lines(match_args(matches));
    if let Ok(cmd) = hupall(cause, matches) {
        let start = "hupall "@ + cause + " "@;
        let args = joined(match_args(matches));
        assert forall|i: int| 0 <= i < cmd.len() implies cmd[i] != '\n' by {
            if i < start.len() {
                assert(cmd[i] == start[i]);
                if 7 <= i < 7 + cause.len() {
                    assert(cause.contains(cause[i - 7]));
                }
            } else {
                assert(cmd[i] == args[i - start.len()]);
                assert(args.contains(args[i - start.len()]));
            }
        }
    }
}

proof fn lemma_match_args_have_no_lines(matches: Seq<(Seq<char>, Seq<char>)>)
    ensures
        forall|i: int|
            0 <= i < match_args(matches).len() ==> !(#[trigger] match_args(matches)[i]).contains(
                '\n',
            ),
    decreases matches.len(),
{
    if matches.len() > 0 {
        let before = match_args(matches.drop_last());
        lemma_match_args_have_no_lines(matches.drop_last());
        law_escaped_is_one_argument(matches.last().0);
        law_escaped_is_one_argument(matches.last().1);
        assert(!escaped(matches.last().0).contains('\n'));
        assert(!escaped(matches.last().1).contains('\n'));
        assert forall|i: int| 0 <= i < match_args(matches).len() implies !(
        #[trigger] match_args(matches)[i]).contains('\n') by {
            if i < before.len() {
                assert(match_args(matches)[i] == before[i]);
            }
        }
    }
}

proof fn lemma_joined_has_no_lines(args: Seq<Seq<char>>)
    requires
        forall|i: int| 0 <= i < args.len() ==> !(#[trigger] args[i]).contains('\n'),
    ensures
        !joined(args).contains('\n'),
    decreases args.len(),
{
    if args.len() > 0 {
        assert(!args[args.len() - 1].contains('\n'));
    }
    if args.len() > 1 {
        let first = args.drop_last();
        assert forall|i: int| 0 <= i < first.len() implies !(#[trigger] first[i]).contains(
            '\n',
        ) by {
            assert(first[i] == args[i]);
        }
        lemma_joined_has_no_lines(first);
        let start = joined(first).push(' ');
        assert forall|i: int| 0 <= i < joined(args).len() implies joined(args)[i] != '\n' by {
            if i < joined(first).len() {
                assert(joined(args)[i] == joined(first)[i]);
                assert(joined(first).contains(joined(first)[i]));
            } else if i >= start.len() {
                assert(joined(args)[i] == args.last()[i - start.len()]);
                assert(args.last().contains(args.last()[i - start.len()]));
            }
        }
    }
}

/// To escape one text after another is to escape both together.
pub proof fn law_escaping_goes_piece_by_piece(a: Seq<char>, b: Seq<char>)
    ensures
        escaped(Seq::empty()) == Seq::<char>::empty(),
        escaped(a + b) == escaped(a) + escaped(b),
    decreases a.len(),
{
    if a.len() == 0 {
        assert(a + b =~= b);
        assert(escaped(a) + escaped(b) =~= escaped(b));
    } else {
        law_escaping_goes_piece_by_piece(a.drop_first(), b);
        assert((a + b).drop_first() =~= a.drop_first() + b);
        assert((a + b).first() == a.first());
        assert(escaped(a + b) =~= escaped(a) + escaped(b));
    }
}

/// A quote is escaped as a backslash and the quote, white space as a backslash and its letter, and
/// any other character, backslashes too, as itself.
pub proof fn law_only_quotes_and_white_space_are_escaped(c: char)
    ensures
        escaped(seq!['\'']) == seq!['\\', '\''],
        escaped(seq!['"']) == seq!['\\', '"'],
        escaped(seq!['\n']) == seq!['\\', 'n'],
        escaped(seq!['\r']) == seq!['\\', 'r'],
        escaped(seq!['\t']) == seq!['\\', 't'],
        escaped(seq![' ']) == seq!['\\', 's'],
        c != '\'' && c != '"' && c != '\n' && c != '\r' && c != '\t' && c != ' ' ==> escaped(
            seq![c],
        ) == seq![c],
{
    lemma_escaped_single('\'');
    lemma_escaped_single('"');
    lemma_escaped_single('\n');
    lemma_escaped_single('\r');
    lemma_escaped_single('\t');
    lemma_escaped_single(' ');
    lemma_escaped_single(c);
}

proof fn lemma_escaped_single(c: char)
    ensures
        escaped(seq![c]) == escaped_char(c),
{
    let text = seq![c];
    assert(text.drop_first() =~= Seq::<char>::empty());
    assert(escaped(Seq::<char>::empty()) =~= Seq::<char>::empty());
    assert(escaped(text) =~= escaped_char(c));
}

/// A 'like' string is refused if and only if there is a `'` or a `;` in it. Otherwise it stands in
/// the command, escaped, between `show channels like ` and ` as json`.
pub proof fn law_channels_are_like_the_string(like: Seq<char>)
    ensures
        show_channels(None) == Ok::<Seq<char>, ArgumentError>("show channels as json"@),
        show_channels(Some(like)) == like_command(like),
        !like.contains('\\') ==> (show_channels(Some(like)) matches Ok(cmd) ==> {
            let start = "show channels like "@;
            let end = " as json"@;
            unescaped(cmd.subrange(start.len() as int, cmd.len() - end.len())) == like
        }),
        like_literal(like) is Err <==> exists|i: int|
            0 <= i < like.len() && (#[trigger] like[i] == '\'' || like[i] == ';'),
{
    if like.contains('\'') || like.contains(';') {
        if like.contains('\'') {
            let j = choose|j: int| 0 <= j < like.len() && like[j] == '\'';
            assert(like[j] == '\'');
        } else {
            let j = choose|j: int| 0 <= j < like.len() && like[j] == ';';
            assert(like[j] == ';');
        }
    } else {
        assert forall|i: int| 0 <= i < like.len() implies !(#[trigger] like[i] == '\'' || like[i]
            == ';') by {
            assert(like.contains(like[i]));
        }
        let start = "show channels like "@;
        let end = " as json"@;
        let cmd = start + escaped(like) + end;
        assert(cmd.subrange(start.len() as int, cmd.len() - end.len()) =~= escaped(like));
        if !like.contains('\\') {
            law_escaping_can_be_undone(like);
        }
    }
}

/// The command for the channels that are like a string.
pub open spec fn like_command(like: Seq<char>) -> Result<Seq<char>, ArgumentError> {
    if like.contains('\'') || like.contains(';') {
        Err(ArgumentError::InvalidLike)
    } else {
        Ok("show channels like "@ + escaped(like) + " as json"@)
    }
}

/// What stands between the spaces of a text.
pub open spec fn split(text: Seq<char>) -> Seq<Seq<char>>
    decreases text.len(),
{
    if text.len() == 0 {
        seq![Seq::empty()]
    } else {
        let before = split(text.drop_last());
        if text.last() == ' ' {
            before.push(Seq::empty())
        } else {
            before.drop_last().push(before.last().push(text.last()))
        }
    }
}

/// An argument after a space is one more argument.
proof fn lemma_split_argument(text: Seq<char>, arg: Seq<char>)
    requires
        !arg.contains(' '),
    ensures
        split(text.push(' ') + arg) == split(text).push(arg),
        split(arg) == seq![arg],
    decreases arg.len(),
{
    let all = text.push(' ') + arg;
    if arg.len() == 0 {
        assert(all =~= text.push(' '));
        assert(all.drop_last() =~= text);
        assert(arg =~= Seq::<char>::empty());
        assert(split(all) =~= split(text).push(arg));
    } else {
        let before = arg.drop_last();
        assert(arg.contains(arg[arg.len() - 1]));
        assert forall|i: int| 0 <= i < before.len() implies before[i] != ' ' by {
            assert(arg.contains(arg[i]));
        }
        lemma_split_argument(text, before);
        assert(all.drop_last() =~= text.push(' ') + before);
        assert(all.last() == arg.last());
        assert(before.push(arg.last()) =~= arg);
        assert(split(all) =~= split(text).push(arg));
        assert(split(arg) =~= seq![arg]);
    }
}

/// To split joined arguments gives the arguments back.
pub proof fn law_joined_arguments_are_split_again(args: Seq<Seq<char>>)
    requires
        args.len() > 0,
        are_arguments(args),
    ensures
        split(joined(args)) == args,
    decreases args.len(),
{
    let last = args.last();
    assert(!args[args.len() - 1].contains(' '));
    if args.len() == 1 {
        lemma_split_argument(Seq::empty(), last);
        assert(args =~= seq![last]);
    } else {
        let before = args.drop_last();
        assert forall|i: int| 0 <= i < before.len() implies !(#[trigger] before[i]).contains(
            ' ',
        ) by {
            assert(before[i] == args[i]);
        }
        law_joined_arguments_are_split_again(before);
        lemma_split_argument(joined(before), last);
        assert(before.push(last) =~= args);
    }
}

proof fn lemma_match_args_at(matches: Seq<(Seq<char>, Seq<char>)>, i: int)
    requires
        0 <= i < matches.len(),
    ensures
        match_args(matches).len() == 2 * matches.len(),
        match_args(matches)[2 * i] == escaped(matches[i].0),
        match_args(matches)[2 * i + 1] == escaped(matches[i].1),
    decreases matches.len(),
{
    let before = matches.drop_last();
    law_variable_matches_are_arguments(matches);
    law_variable_matches_are_arguments(before);
    if i < before.len() {
        lemma_match_args_at(before, i);
        assert(before[i] == matches[i]);
    }
}

/// To hang up takes at most five variables. What stands between the spaces after the cause is the
/// name and the value of each variable, each escaped, in the order of the variables, and nothing
/// more.
pub proof fn law_hupall_names_each_variable(
    cause: Seq<char>,
    matches: Seq<(Seq<char>, Seq<char>)>,
    i: int,
)
    ensures
        hupall(cause, matches) is Err <==> matches.len() > 5,
        hupall(cause, Seq::empty()) == Ok::<Seq<char>, ArgumentError>("hupall "@ + cause + " "@),
        hupall(cause, matches) matches Ok(cmd) ==> {
            let start = "hupall "@ + cause + " "@;
            let args = split(cmd.skip(start.len() as int));
            &&& start.is_prefix_of(cmd)
            &&& matches.len() > 0 ==> args.len() == 2 * matches.len()
            &&& 0 <= i < matches.len() ==> args[2 * i] == escaped(matches[i].0)
            &&& 0 <= i < matches.len() ==> args[2 * i + 1] == escaped(matches[i].1)
        },
{
    let start = "hupall "@ + cause + " "@;
    assert(joined(match_args(Seq::empty())) =~= Seq::<char>::empty());
    assert(start + Seq::<char>::empty() =~= start);
    if let Ok(cmd) = hupall(cause, matches) {
        let args = match_args(matches);
        assert(cmd.skip(start.len() as int) =~= joined(args));
        assert(cmd.take(start.len() as int) =~= start);
        law_variable_matches_are_arguments(matches);
        if matches.len() > 0 {
            law_joined_arguments_are_split_again(args);
        }
        if 0 <= i < matches.len() {
            lemma_match_args_at(matches, i);
        }
    }
}

/// If there are no backslashes in them, the names and the values of all variables can be told again
/// from the command: what stands between the spaces after the cause, unescaped.
pub proof fn law_variables_are_told_again(
    cause: Seq<char>,
    matches: Seq<(Seq<char>, Seq<char>)>,
    i: int,
)
    requires
        0 <= i < matches.len(),
        !matches[i].0.contains('\\'),
        !matches[i].1.contains('\\'),
    ensures
        hupall(cause, matches) matches Ok(cmd) ==> {
            let start = "hupall "@ + cause + " "@;
            let args = split(cmd.skip(start.len() as int));
            &&& unescaped(args[2 * i]) == matches[i].0
            &&& unescaped(args[2 * i + 1]) == matches[i].1
        },
{
    law_hupall_names_each_variable(cause, matches, i);
    law_escaping_can_be_undone(matches[i].0);
    law_escaping_can_be_undone(matches[i].1);
}

/// A reply that begins with `-ERR` is an error with the command and with what the reply says, and a
/// reply that begins with `+OK` is what it says: all that follows but the white space around it.
pub proof fn law_failed_commands_are_errors(
    cmd: Seq<char>,
    response: MessageView,
    rest: Seq<char>,
    before: Seq<char>,
    said: Seq<char>,
    after: Seq<char>,
)
    requires
        is_of_type(response, "command/reply"@),
        is_said_in(rest, before, said, after),
    ensures
        ({
            let info = if said.len() > 0 {
                Some(said)
            } else {
                None
            };
            &&& says(response.headers, "Reply-Text"@, "-ERR"@ + rest) ==> command_result(
                cmd,
                response,
            ) == Err::<Option<Seq<char>>, CommandFault>(CommandFault::Failed { cmd, info })
            &&& says(response.headers, "Reply-Text"@, "+OK"@ + rest) ==> command_result(
                cmd,
                response,
            ) == Ok::<Option<Seq<char>>, CommandFault>(info)
        }),
{
    law_reply_says_all_but_white_space(rest, before, said, after);
    law_command_reply_is_its_reply_text(response, "-ERR"@ + rest);
    law_command_reply_is_its_reply_text(response, "+OK"@ + rest);
}

/// A command succeeds only if the reply is a reply to a command whose first `Reply-Text` begins with
/// `+OK`, and fails only if it is one whose first `Reply-Text` begins with `-ERR`. The failure is that
/// of the command.
pub proof fn law_commands_succeed_with_ok_alone(
    cmd: Seq<char>,
    response: MessageView,
    text: Seq<char>,
)
    ensures
        command_result(cmd, response) is Ok ==> is_of_type(response, "command/reply"@),
        command_result(cmd, response) is Ok && says(response.headers, "Reply-Text"@, text)
            ==> "+OK"@.is_prefix_of(text),
        command_result(cmd, response) is Ok ==> !says_nothing(response.headers, "Reply-Text"@),
        command_result(cmd, response) matches Err(CommandFault::Failed { cmd: failed, info: _ })
            ==> {
            &&& failed == cmd
            &&& is_of_type(response, "command/reply"@)
            &&& !says_nothing(response.headers, "Reply-Text"@)
            &&& says(response.headers, "Reply-Text"@, text) ==> "-ERR"@.is_prefix_of(text)
        },
{
    if CommandReply::read_message(response) is Ok {
        law_content_type_decides(response);
        law_type_is_what_the_headers_say(response, "command/reply"@);
        law_command_reply_is_its_reply_text(response, text);
        law_reply_says_what_it_begins_with(text);
    }
}

/// A message that is no reply to a command is neither a success nor a failure of the command: the
/// error says what is wrong with it.
pub proof fn law_what_is_no_reply_is_an_error(
    cmd: Seq<char>,
    response: MessageView,
    text: Seq<char>,
)
    ensures
        says_nothing(response.headers, "Content-Type"@) ==> command_result(cmd, response) == Err::<
            Option<Seq<char>>,
            CommandFault,
        >(CommandFault::Reply(Fault::MissingContentType("command/reply"@))),
        is_of_type(response, "command/reply"@) && says_nothing(response.headers, "Reply-Text"@)
            ==> command_result(cmd, response) == Err::<Option<Seq<char>>, CommandFault>(
            CommandFault::Reply(Fault::MissingHeader("Reply-Text"@)),
        ),
        is_of_type(response, "command/reply"@) && says(response.headers, "Reply-Text"@, text)
            && !"+OK"@.is_prefix_of(text) && !"-ERR"@.is_prefix_of(text) ==> command_result(
            cmd,
            response,
        ) == Err::<Option<Seq<char>>, CommandFault>(
            CommandFault::Reply(Fault::InvalidReplyText(text)),
        ),
{
    law_other_types_are_refused(response, text);
    law_other_texts_are_no_reply(text, Seq::empty());
    if is_of_type(response, "command/reply"@) {
        law_command_reply_is_its_reply_text(response, text);
    }
}

/// What is said of a command that failed begins with the command, and ends with what the reply said,
/// if it said anything.
pub proof fn law_failures_name_the_command(cmd: Seq<char>, said: Seq<char>)
    ensures
        failure(cmd, None) == "Command `"@ + cmd + "` failed"@,
        failure(cmd, Some(said)) == failure(cmd, None) + ": "@ + said,
{
    assert("Command `"@ + cmd + "` failed"@ + Seq::<char>::empty() =~= "Command `"@ + cmd
        + "` failed"@);
    assert(failure(cmd, Some(said)) =~= failure(cmd, None) + ": "@ + said);
}

} // verus!
