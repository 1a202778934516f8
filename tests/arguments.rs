use serenity_cache::args::{Args, Delimiter};

fn space() -> Vec<Delimiter> {
    vec![Delimiter::Single(' ')]
}

#[test]
fn splits_on_spaces() {
    let mut args = Args::new("hello world!", &space());
    assert_eq!(args.len(), 2);
    assert_eq!(args.current(), Some("hello".to_string()));
    args.advance();
    assert_eq!(args.current(), Some("world!".to_string()));
    args.advance();
    assert_eq!(args.current(), None);
    assert!(args.is_empty());
}

#[test]
fn quoted_argument_stays_whole() {
    let mut args = Args::new(r#""Princess Zelda" link"#, &space());
    assert_eq!(args.len(), 2);
    args.quoted();
    assert_eq!(args.current(), Some("Princess Zelda".to_string()));
    args.unquoted();
    assert_eq!(args.current(), Some("\"Princess Zelda\"".to_string()));
}

#[test]
fn rewind_and_restore() {
    let mut args = Args::new("4 2", &space());
    args.advance();
    assert_eq!(args.current(), Some("2".to_string()));
    args.rewind();
    assert_eq!(args.current(), Some("4".to_string()));
    args.rewind();
    assert_eq!(args.offset(), 0);
    args.advance().advance();
    assert!(args.is_empty());
    args.restore();
    assert_eq!(args.current(), Some("4".to_string()));
}

#[test]
fn trimmed_without_delimiters() {
    let mut args = Args::new("     42     ", &[]);
    args.trimmed();
    assert_eq!(args.current(), Some("42".to_string()));
    args.untrimmed();
    assert_eq!(args.current(), Some("     42     ".to_string()));
    assert_eq!(args.message(), "     42     ");
}

#[test]
fn rest_and_remains() {
    let mut args = Args::new("the quick brown fox", &space());
    args.advance().advance();
    assert_eq!(args.rest(), "brown fox");
    assert_eq!(args.remains(), Some("brown fox".to_string()));
    assert_eq!(args.remaining(), 2);
    args.advance().advance();
    assert_eq!(args.rest(), "");
    assert_eq!(args.remains(), None);
    assert_eq!(args.remaining(), 0);
}

#[test]
fn raw_and_raw_quoted() {
    let args = Args::new("Saw \"The Mist\" \"A Quiet Place\"", &space());
    let mut raw = args.raw_quoted();
    let mut all = Vec::new();
    while let Some(s) = raw.next() {
        all.push(s);
    }
    assert_eq!(all, vec!["Saw", "The Mist", "A Quiet Place"]);
    let mut raw = args.raw();
    raw.next();
    assert_eq!(raw.next(), Some("\"The Mist\"".to_string()));
}

#[test]
fn empty_and_blank_messages_have_no_arguments() {
    assert_eq!(Args::new("", &space()).len(), 0);
    assert_eq!(Args::new("   ", &[]).len(), 0);
    assert!(Args::new("", &[]).is_empty());
}

#[test]
fn repeated_delimiters_make_no_empty_arguments() {
    let args = Args::new("a  b", &space());
    assert_eq!(args.len(), 2);
}

#[test]
fn multiple_character_delimiter() {
    let mut args = Args::new("a, b, c", &[Delimiter::Multiple(", ".to_string())]);
    assert_eq!(args.len(), 3);
    args.advance();
    assert_eq!(args.current(), Some("b".to_string()));
}

#[test]
fn unclosed_quote_runs_to_end() {
    let mut args = Args::new("\"abc def", &space());
    assert_eq!(args.len(), 1);
    assert_eq!(args.current(), Some("\"abc def".to_string()));
    args.quoted();
    assert_eq!(args.current(), Some("\"abc def".to_string()));
}

#[test]
fn typographic_quotes_are_quotes() {
    let mut args = Args::new("\u{201C}a b\u{201D} c", &space());
    assert_eq!(args.len(), 2);
    args.quoted();
    assert_eq!(args.current(), Some("a b".to_string()));
}

#[test]
fn remove_argument_drops_it() {
    let mut args = Args::new("c4 2", &space());
    args.remove_argument(1);
    assert_eq!(args.len(), 1);
    assert_eq!(args.current(), Some("c4".to_string()));
}

#[test]
fn escaped_quote_does_not_close() {
    let mut args = Args::new(r#""a \" b" c"#, &space());
    assert_eq!(args.len(), 2);
    assert_eq!(args.current(), Some(r#""a \" b""#.to_string()));
    args.advance();
    assert_eq!(args.current(), Some("c".to_string()));
}

#[test]
fn delimiters_after_quoted_argument_are_skipped() {
    let args = Args::new("\"x y\", z", &[Delimiter::Multiple(", ".to_string()), Delimiter::Single(' ')]);
    let mut raw = args.raw();
    assert_eq!(raw.next(), Some("\"x y\"".to_string()));
    assert_eq!(raw.next(), Some("z".to_string()));
    assert_eq!(raw.next(), None);
}

#[test]
fn first_listed_delimiter_wins() {
    let args = Args::new("a;b c", &[Delimiter::Single(';'), Delimiter::Single(' ')]);
    assert_eq!(args.len(), 3);
}

#[test]
fn quoted_whole_message_without_delimiters() {
    let mut args = Args::new("\"42\"", &[]);
    args.quoted();
    assert_eq!(args.current(), Some("42".to_string()));
    args.unquoted();
    assert_eq!(args.current(), Some("\"42\"".to_string()));
}

#[test]
fn trimmed_then_quoted_applies_both() {
    let mut args = Args::new(" \"a\" ", &[]);
    args.trimmed().quoted();
    assert_eq!(args.current(), Some("a".to_string()));
}
