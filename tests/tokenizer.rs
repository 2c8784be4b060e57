use bpp_command_api::message::tokenize;
use bpp_command_api::message::StringViewError;

fn words(input: &str) -> Vec<String> {
    tokenize(input.to_string()).expect("input should tokenize")
}

fn error(input: &str) -> StringViewError {
    tokenize(input.to_string()).expect_err("input should be rejected")
}

#[test]
fn splits_plain_words_on_whitespace() {
    assert_eq!(words("ban user1 5"), vec!["ban", "user1", "5"]);
}

#[test]
fn plain_words_match_split_whitespace() {
    let input = "  many\t spaces\nand\r\nlines  ";
    let expected: Vec<&str> = input.split_whitespace().collect();
    assert_eq!(words(input), expected);
}

#[test]
fn splits_on_unicode_whitespace() {
    assert_eq!(words("a\u{3000}b\u{a0}c\u{2003}d"), vec!["a", "b", "c", "d"]);
}

#[test]
fn quoted_argument_keeps_its_spaces() {
    assert_eq!(
        words("timeout \"long reason here\" 10"),
        vec!["timeout", "long reason here", "10"]
    );
}

#[test]
fn guillemets_group_like_double_quotes() {
    assert_eq!(words("say «hello world»"), vec!["say", "hello world"]);
}

#[test]
fn every_quote_pair_groups_words() {
    let pairs = [
        ('"', '"'),
        ('‘', '’'),
        ('‚', '‛'),
        ('“', '”'),
        ('„', '‟'),
        ('⹂', '⹂'),
        ('「', '」'),
        ('『', '』'),
        ('〝', '〞'),
        ('﹁', '﹂'),
        ('﹃', '﹄'),
        ('＂', '＂'),
        ('｢', '｣'),
        ('«', '»'),
        ('‹', '›'),
        ('《', '》'),
        ('〈', '〉'),
    ];
    for (open, close) in pairs {
        let input = format!("say {}hello world{} end", open, close);
        assert_eq!(words(&input), vec!["say", "hello world", "end"], "{}", input);
    }
}

#[test]
fn escaped_quote_inside_quotes_is_literal() {
    assert_eq!(
        words("echo \"he said \\\"hi\\\"\""),
        vec!["echo", "he said \"hi\""]
    );
}

#[test]
fn escaped_quote_in_unquoted_word_is_literal() {
    assert_eq!(words("say it\\\"s"), vec!["say", "it\"s"]);
    assert_eq!(words("say a\\«b"), vec!["say", "a«b"]);
}

#[test]
fn backslash_before_ordinary_character_is_kept() {
    assert_eq!(words("path a\\b"), vec!["path", "a\\b"]);
    assert_eq!(words("\"x\\ny\""), vec!["x\\ny"]);
}

#[test]
fn double_backslash_keeps_both() {
    assert_eq!(words("a\\\\b"), vec!["a\\\\b"]);
}

#[test]
fn only_own_marks_escape_inside_quotes() {
    // inside «…» a backslash before a straight quote is not an escape
    assert_eq!(words("«a\\\"b»"), vec!["a\\\"b"]);
    assert_eq!(words("«a\\»b»"), vec!["a»b"]);
}

#[test]
fn trailing_backslash_of_a_word_is_dropped() {
    assert_eq!(words("echo abc\\"), vec!["echo", "abc"]);
}

#[test]
fn lone_backslash_word_is_kept() {
    assert_eq!(words("echo \\"), vec!["echo", "\\"]);
}

#[test]
fn closing_quote_followed_by_text_is_rejected() {
    assert_eq!(
        error("echo \"abc\"def"),
        StringViewError::InvalidEndOfQuotedString { char: 'd' }
    );
}

#[test]
fn unterminated_quote_is_rejected() {
    assert_eq!(
        error("echo \"abc"),
        StringViewError::ExpectedClosingQuote { close_quote: '"' }
    );
}

#[test]
fn unterminated_guillemet_names_its_closer() {
    assert_eq!(
        error("echo «abc"),
        StringViewError::ExpectedClosingQuote { close_quote: '»' }
    );
}

#[test]
fn backslash_at_end_inside_quotes_is_rejected() {
    assert_eq!(
        error("echo \"abc\\"),
        StringViewError::ExpectedClosingQuote { close_quote: '"' }
    );
}

#[test]
fn quote_inside_unquoted_word_is_rejected() {
    assert_eq!(
        error("echo ab\"c"),
        StringViewError::UnexpectedQuote { quote: '"' }
    );
}

#[test]
fn closing_mark_inside_unquoted_word_is_rejected() {
    assert_eq!(
        error("echo ab»c"),
        StringViewError::UnexpectedQuote { quote: '»' }
    );
}

#[test]
fn tokenizing_twice_gives_the_same_result() {
    for input in ["ban user1 5", "say «hello world»", "echo \"abc", "echo ab\"c", ""] {
        assert_eq!(tokenize(input.to_string()), tokenize(input.to_string()));
    }
}

#[test]
fn empty_input_has_no_words() {
    assert_eq!(words(""), Vec::<String>::new());
}

#[test]
fn blank_input_has_no_words() {
    assert_eq!(words(" \t\n \u{3000} "), Vec::<String>::new());
}

#[test]
fn empty_quotes_give_an_empty_word() {
    assert_eq!(words("say \"\" now"), vec!["say", "", "now"]);
}

#[test]
fn quoted_word_at_end_of_input() {
    assert_eq!(words("say “done”"), vec!["say", "done"]);
}

#[test]
fn error_messages_name_the_character() {
    assert_eq!(
        StringViewError::ExpectedClosingQuote { close_quote: '"' }.to_string(),
        "Expected closing quote '\"'"
    );
    assert_eq!(
        StringViewError::UnexpectedQuote { quote: '«' }.to_string(),
        "Unexpected quote '«' in non-quoted string."
    );
    assert_eq!(
        StringViewError::InvalidEndOfQuotedString { char: 'd' }.to_string(),
        "Expected space after closing quotation but received d"
    );
}
