use bpp_command_api::chars::closing_quote_of;
use bpp_command_api::chars::is_quote_char;
use bpp_command_api::message::StringView;

fn view(s: &str) -> StringView {
    StringView::new(s.to_string())
}

#[test]
fn new_counts_characters_not_bytes() {
    let v = view("«ab»");
    assert_eq!(v.end, 4);
    assert_eq!(v.index, 0);
    assert_eq!(v.previous, 0);
    assert!(!v.eof());
    assert!(view("").eof());
}

#[test]
fn current_reads_under_the_cursor() {
    let mut v = view("«x");
    assert_eq!(v.current(), Some('«'));
    v.index = 1;
    assert_eq!(v.current(), Some('x'));
    v.index = 2;
    assert_eq!(v.current(), None);
}

#[test]
fn get_steps_and_returns_the_next_character() {
    let mut v = view("a«c");
    assert_eq!(v.get(), Some('«'));
    assert_eq!((v.index, v.previous), (1, 0));
    assert_eq!(v.get(), Some('c'));
    assert_eq!(v.get(), None);
    assert_eq!(v.index, 3);
    assert!(v.eof());
}

#[test]
fn undo_goes_back_one_step_only() {
    let mut v = view("abc");
    v.get();
    v.get();
    assert_eq!(v.index, 2);
    v.undo();
    assert_eq!(v.index, 1);
    v.undo();
    assert_eq!(v.index, 1);
}

#[test]
fn skip_whitespace_moves_past_a_run() {
    let mut v = view(" \t\u{3000}x y");
    assert!(v.skip_whitespace());
    assert_eq!((v.index, v.previous), (3, 0));
    assert!(!v.skip_whitespace());
    assert_eq!(v.index, 3);
}

#[test]
fn skip_string_matches_a_prefix() {
    let mut v = view("!«ban» x");
    assert!(!v.skip_string("?".to_string()));
    assert_eq!(v.index, 0);
    assert!(v.skip_string("!«".to_string()));
    assert_eq!((v.index, v.previous), (2, 0));
    assert!(!v.skip_string("ban» x and more".to_string()));
    assert_eq!(v.index, 2);
}

#[test]
fn read_takes_characters() {
    let mut v = view("«ab» rest");
    assert_eq!(v.read(4), "«ab»");
    assert_eq!((v.index, v.previous), (4, 0));
    assert_eq!(v.read_rest(), " rest");
    assert_eq!((v.index, v.previous), (9, 4));
    assert_eq!(v.read_rest(), "");
}

#[test]
fn get_word_stops_at_whitespace() {
    let mut v = view("hello« world");
    assert_eq!(v.get_word(), "hello«");
    assert_eq!((v.index, v.previous), (6, 0));
    assert_eq!(v.get_word(), "");
    v.skip_whitespace();
    assert_eq!(v.get_word(), "world");
    assert!(v.eof());
}

#[test]
fn get_quoted_word_reads_one_word_at_a_time() {
    let mut v = view("«a b» c");
    assert_eq!(v.get_quoted_word(), Ok(Some("a b".to_string())));
    assert_eq!(v.index, 5);
    v.skip_whitespace();
    assert_eq!(v.get_quoted_word(), Ok(Some("c".to_string())));
    assert_eq!(v.get_quoted_word(), Ok(None));
}

#[test]
fn get_parameters_reads_from_the_cursor() {
    let mut v = view("!cmd a \"b c\"");
    v.read(1);
    assert_eq!(
        v.get_parameters(),
        Ok(vec!["cmd".to_string(), "a".to_string(), "b c".to_string()])
    );
    assert!(v.eof());
}

#[test]
fn quote_table_pairs_marks() {
    assert_eq!(closing_quote_of('"'), Some('"'));
    assert_eq!(closing_quote_of('「'), Some('」'));
    assert_eq!(closing_quote_of('»'), None);
    assert_eq!(closing_quote_of('a'), None);
    assert!(is_quote_char('»'));
    assert!(is_quote_char('〈'));
    assert!(!is_quote_char('\''));
    assert!(!is_quote_char('a'));
}
