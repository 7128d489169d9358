use md2ht::text::{chars_of, push_decimal, push_range, trimmed};
use md2ht::walker::SourceWalker;

#[test]
fn peek_shows_without_reading() {
    let walker = SourceWalker::new("ab");
    assert_eq!(walker.peek(), Some('a'));
    assert_eq!(walker.peek(), Some('a'));
    assert_eq!(walker.position(), 0);
}

#[test]
fn peek_n_looks_ahead() {
    let walker = SourceWalker::new("ab");
    assert_eq!(walker.peek_n(0), Some('a'));
    assert_eq!(walker.peek_n(1), Some('b'));
    assert_eq!(walker.peek_n(2), None);
    assert_eq!(walker.peek_n(usize::MAX), None);
}

#[test]
fn peek_on_empty_document() {
    let walker = SourceWalker::new("");
    assert_eq!(walker.peek(), None);
    assert_eq!(walker.peek_n(3), None);
}

#[test]
fn eat_reads_in_order() {
    let mut walker = SourceWalker::new("ab");
    assert_eq!(walker.eat(), Some('a'));
    assert_eq!(walker.position(), 1);
    assert_eq!(walker.eat(), Some('b'));
    assert_eq!(walker.position(), 2);
}

#[test]
fn eat_at_the_end_still_steps() {
    let mut walker = SourceWalker::new("a");
    assert_eq!(walker.eat(), Some('a'));
    assert_eq!(walker.position(), 1);
    assert_eq!(walker.eat(), None);
    assert_eq!(walker.position(), 2);
    assert_eq!(walker.eat(), None);
    assert_eq!(walker.position(), 3);
    assert_eq!(walker.peek(), None);
}

#[test]
fn munch_skips_characters() {
    let mut walker = SourceWalker::new("abcdef");
    walker.munch(2);
    assert_eq!(walker.peek(), Some('c'));
    walker.munch(0);
    assert_eq!(walker.position(), 2);
    walker.munch(3);
    assert_eq!(walker.peek(), Some('f'));
}

#[test]
fn munch_may_pass_the_end() {
    let mut walker = SourceWalker::new("ab");
    walker.munch(10);
    assert_eq!(walker.position(), 10);
    assert_eq!(walker.peek(), None);
    assert_eq!(walker.eat_line(), None);
    assert_eq!(walker.eat_paragraph(), None);
    assert_eq!(walker.consume_link(), None);
    assert_eq!(walker.consume(), "");
    assert_eq!(walker.position(), 10);
}

#[test]
fn rewind_goes_back() {
    let mut walker = SourceWalker::new("abc");
    walker.munch(2);
    walker.rewind(1);
    assert_eq!(walker.position(), 1);
    assert_eq!(walker.peek(), Some('b'));
}

#[test]
fn next_is_tests_one_character() {
    let walker = SourceWalker::new("ab");
    assert!(walker.next_is('a'));
    assert!(!walker.next_is('b'));
    assert!(walker.next_is_at(1, 'b'));
    assert!(!walker.next_is_at(2, 'b'));
    assert!(!SourceWalker::new("").next_is('a'));
}

#[test]
fn characters_are_counted_not_bytes() {
    let mut walker = SourceWalker::new("é越b");
    assert_eq!(walker.peek_n(1), Some('越'));
    assert_eq!(walker.eat(), Some('é'));
    assert_eq!(walker.position(), 1);
    walker.munch(1);
    assert_eq!(walker.peek(), Some('b'));
}

#[test]
fn eat_line_reads_through_the_newline() {
    let mut walker = SourceWalker::new("one\ntwo");
    assert_eq!(walker.eat_line(), Some("one\n".to_string()));
    assert_eq!(walker.position(), 4);
    assert_eq!(walker.eat_line(), Some("two".to_string()));
    assert_eq!(walker.position(), 7);
    assert_eq!(walker.eat_line(), None);
    assert_eq!(walker.position(), 7);
}

#[test]
fn eat_line_on_a_bare_newline() {
    let mut walker = SourceWalker::new("\n\nx");
    assert_eq!(walker.eat_line(), Some("\n".to_string()));
    assert_eq!(walker.eat_line(), Some("\n".to_string()));
    assert_eq!(walker.eat_line(), Some("x".to_string()));
    assert_eq!(walker.eat_line(), None);
}

#[test]
fn eat_line_on_empty_document() {
    let mut walker = SourceWalker::new("");
    assert_eq!(walker.eat_line(), None);
    assert_eq!(walker.position(), 0);
}

#[test]
fn eat_paragraph_joins_trimmed_lines() {
    let mut walker = SourceWalker::new("  a \n b\n\nc");
    assert_eq!(walker.eat_paragraph(), Some("a\nb".to_string()));
    assert_eq!(walker.position(), 9);
    assert_eq!(walker.eat_paragraph(), Some("c".to_string()));
    assert_eq!(walker.eat_paragraph(), None);
}

#[test]
fn eat_paragraph_reads_the_empty_line_that_ends_it() {
    let mut walker = SourceWalker::new("a\n   \nb\n");
    assert_eq!(walker.eat_paragraph(), Some("a".to_string()));
    assert_eq!(walker.peek(), Some('b'));
}

#[test]
fn eat_paragraph_that_starts_with_an_empty_line() {
    let mut walker = SourceWalker::new("\nabc");
    assert_eq!(walker.eat_paragraph(), None);
    assert_eq!(walker.position(), 1);
    assert_eq!(walker.eat_paragraph(), Some("abc".to_string()));
}

#[test]
fn eat_paragraph_of_three_lines() {
    let mut walker = SourceWalker::new("a\nb\nc\n");
    assert_eq!(walker.eat_paragraph(), Some("a\nb\nc".to_string()));
    assert_eq!(walker.eat_paragraph(), None);
}

#[test]
fn chars_of_keeps_every_character() {
    assert_eq!(chars_of("a é\n"), vec!['a', ' ', 'é', '\n']);
    assert_eq!(chars_of(""), Vec::<char>::new());
}

#[test]
fn push_range_appends_a_part() {
    let chars = vec!['a', 'b', 'c', 'd'];
    let mut out = "x".to_string();
    push_range(&mut out, &chars, 1, 3);
    assert_eq!(out, "xbc");
    push_range(&mut out, &chars, 2, 2);
    assert_eq!(out, "xbc");
}

#[test]
fn trimmed_takes_white_space_off_both_ends() {
    assert_eq!(trimmed("  a b \t\n"), "a b");
    assert_eq!(trimmed("a"), "a");
    assert_eq!(trimmed(" \n "), "");
    assert_eq!(trimmed(""), "");
    assert_eq!(trimmed("\u{a0}x\u{3000}"), "x");
}

#[test]
fn trimmed_agrees_with_the_standard_trim() {
    for s in ["", " ", "a", " a", "a ", "\ta b\r\n", "\u{2003}é \u{85}"] {
        assert_eq!(trimmed(s), s.trim());
    }
}

#[test]
fn push_decimal_writes_numerals() {
    for (n, numeral) in [(0usize, "0"), (7, "7"), (10, "10"), (99, "99"), (100, "100"), (12345, "12345")] {
        let mut out = String::new();
        push_decimal(&mut out, n);
        assert_eq!(out, numeral);
    }
    let mut out = "h".to_string();
    push_decimal(&mut out, usize::MAX);
    assert_eq!(out, format!("h{}", usize::MAX));
}
