use free_socks::client::{
    api_command, auth_command, channels_command, channels_count_command, escape_argument,
    hupall_command, keepalive_command, validate_and_escape_like_literal, ArgumentError,
};

#[test]
fn quotes_and_white_space_are_escaped() {
    assert_eq!(escape_argument("a'b\"c\nd\re\tf g"), "a\\'b\\\"c\\nd\\re\\tf\\sg");
    assert_eq!(escape_argument(""), "");
    assert_eq!(escape_argument("\\ \u{e4}\u{20ac}\u{1f600}"), "\\\\s\u{e4}\u{20ac}\u{1f600}");
}

#[test]
fn escaped_arguments_are_one_argument() {
    let all: String = (0..=0x10FFFFu32).filter_map(char::from_u32).collect();
    let escaped = escape_argument(&all);
    assert!(!escaped.contains(|c| c == ' ' || c == '\t' || c == '\n' || c == '\r'));
    assert_eq!(escaped.len(), all.len() + 6);
}

#[test]
fn escaping_keeps_texts_apart_that_have_no_backslash() {
    assert_ne!(escape_argument("a b"), escape_argument("asb"));
    assert_ne!(escape_argument("\n"), escape_argument("n"));
    assert_eq!(escape_argument("\n"), escape_argument("\\n"));
}

#[test]
fn like_strings_are_validated() {
    assert_eq!(validate_and_escape_like_literal("a b").unwrap(), "a\\sb");
    for like in ["'", ";", "a;b", "it's"] {
        let error = validate_and_escape_like_literal(like).unwrap_err();
        assert_eq!(error, ArgumentError::InvalidLike);
        assert_eq!(error.to_string(), "'like' strings can not contain `'` or `;`");
    }
}

#[test]
fn commands_look_as_they_should() {
    assert_eq!(auth_command("ClueCon"), "auth ClueCon");
    assert_eq!(api_command("status"), "api status");
    assert_eq!(channels_count_command(), "show channels count as json");
    assert_eq!(keepalive_command(), "echo keepalive");
}

#[test]
fn channels_are_shown() {
    assert_eq!(channels_command(None).unwrap(), "show channels as json");
    assert_eq!(
        channels_command(Some("a \"b\"")).unwrap(),
        "show channels like a\\s\\\"b\\\" as json"
    );
    assert_eq!(channels_command(Some("a;b")), Err(ArgumentError::InvalidLike));
}

#[test]
fn hupall_takes_up_to_five_variables() {
    assert_eq!(hupall_command("NORMAL_CLEARING", &[]).unwrap(), "hupall NORMAL_CLEARING ");
    assert_eq!(
        hupall_command("USER_BUSY", &[("a", "1 2"), ("b'", "")]).unwrap(),
        "hupall USER_BUSY a 1\\s2 b\\' "
    );
    assert_eq!(
        hupall_command("X", &[("a", "1"); 5]).unwrap(),
        "hupall X a 1 a 1 a 1 a 1 a 1"
    );
    let error = hupall_command("X", &[("a", "1"); 6]).unwrap_err();
    assert_eq!(error, ArgumentError::TooManyVariables);
    assert_eq!(error.to_string(), "`hupall` can match a maximum of 5 variables");
}

#[test]
fn commands_are_on_one_line() {
    let cmd = hupall_command("X", &[("a\nb", "\n\n"), ("c", "d\n")]).unwrap();
    assert_eq!(cmd, "hupall X a\\nb \\n\\n c d\\n");
    let cmd = channels_command(Some("a\n\nb")).unwrap();
    assert_eq!(cmd, "show channels like a\\n\\nb as json");
}

#[test]
fn joined_arguments_can_be_told_apart() {
    let cmd = hupall_command("X", &[("a b", "c"), ("", "d")]).unwrap();
    let args: Vec<&str> = cmd.split(' ').skip(2).collect();
    assert_eq!(args, ["a\\sb", "c", "", "d"]);
}
