use md2ht::walker::SourceWalker;

#[test]
fn link_is_rewritten() {
    let mut walker = SourceWalker::new("[Home](http://x)");
    assert_eq!(walker.consume_link(), Some("<a href=\"http://x\">Home</a>".to_string()));
    assert_eq!(walker.position(), 16);
}

#[test]
fn link_leaves_what_follows() {
    let mut walker = SourceWalker::new("[a](b) rest");
    assert_eq!(walker.consume_link(), Some("<a href=\"b\">a</a>".to_string()));
    assert_eq!(walker.peek(), Some(' '));
    assert_eq!(walker.position(), 6);
}

#[test]
fn link_with_empty_parts() {
    let mut walker = SourceWalker::new("[]()");
    assert_eq!(walker.consume_link(), Some("<a href=\"\"></a>".to_string()));
    assert_eq!(walker.position(), 4);
}

#[test]
fn link_takes_the_first_closing_bracket() {
    let mut walker = SourceWalker::new("[a[b](c(d)e)");
    assert_eq!(walker.consume_link(), Some("<a href=\"c(d\">a[b</a>".to_string()));
    assert_eq!(walker.peek(), Some('e'));
}

#[test]
fn link_without_closing_square_bracket_rewinds() {
    let mut walker = SourceWalker::new("[Home(http://x)");
    assert_eq!(walker.consume_link(), None);
    assert_eq!(walker.position(), 0);
}

#[test]
fn link_without_round_bracket_rewinds() {
    let mut walker = SourceWalker::new("x[a] (b)");
    walker.munch(1);
    assert_eq!(walker.consume_link(), None);
    assert_eq!(walker.position(), 1);
}

#[test]
fn link_without_closing_round_bracket_rewinds() {
    let mut walker = SourceWalker::new("[a](b");
    assert_eq!(walker.consume_link(), None);
    assert_eq!(walker.position(), 0);
}

#[test]
fn link_that_ends_with_its_name_rewinds() {
    let mut walker = SourceWalker::new("[a]");
    assert_eq!(walker.consume_link(), None);
    assert_eq!(walker.position(), 0);
}

#[test]
fn link_needs_an_opening_bracket() {
    let mut walker = SourceWalker::new("a[b](c)");
    assert_eq!(walker.consume_link(), None);
    assert_eq!(walker.position(), 0);
    let mut empty = SourceWalker::new("");
    assert_eq!(empty.consume_link(), None);
}

#[test]
fn code_span_is_copied() {
    let mut walker = SourceWalker::new("`a [b](c) `x");
    assert_eq!(walker.consume_inline_code_block(), "<code>a [b](c) </code>");
    assert_eq!(walker.peek(), Some('x'));
}

#[test]
fn code_span_without_end_takes_the_rest() {
    let mut walker = SourceWalker::new("`abc");
    assert_eq!(walker.consume_inline_code_block(), "<code>abc</code>");
    assert_eq!(walker.position(), 4);
}

#[test]
fn code_span_may_be_empty() {
    let mut walker = SourceWalker::new("``x");
    assert_eq!(walker.consume_inline_code_block(), "<code></code>");
    assert_eq!(walker.position(), 2);
}

#[test]
fn code_span_at_the_end_of_the_document() {
    let mut walker = SourceWalker::new("a");
    walker.munch(1);
    assert_eq!(walker.consume_inline_code_block(), "<code></code>");
    assert_eq!(walker.position(), 2);
}

#[test]
fn paragraph_splices_links_and_code() {
    let mut walker = SourceWalker::new("see [a](b) and `c`.\n");
    assert_eq!(walker.consume_paragraph(), "see <a href=\"b\">a</a> and <code>c</code>.\n");
    assert_eq!(walker.peek(), None);
}

#[test]
fn paragraph_keeps_a_broken_link_as_text() {
    let mut walker = SourceWalker::new("[Home(http://x)");
    assert_eq!(walker.consume_paragraph(), "[Home(http://x)");
    assert_eq!(walker.peek(), None);
}

#[test]
fn paragraph_keeps_a_last_line_without_newline() {
    let mut walker = SourceWalker::new("one\ntwo");
    assert_eq!(walker.consume_paragraph(), "one\ntwo");
}

#[test]
fn paragraph_ends_after_an_empty_line() {
    let mut walker = SourceWalker::new("a\n\nb\n");
    assert_eq!(walker.consume_paragraph(), "a\n\n");
    assert_eq!(walker.peek(), Some('b'));
}

#[test]
fn paragraph_ends_before_a_marker_at_line_start() {
    let mut walker = SourceWalker::new("a\n# b\n");
    assert_eq!(walker.consume_paragraph(), "a\n");
    assert_eq!(walker.peek(), Some('#'));
    let mut list = SourceWalker::new("a\n* b\n");
    assert_eq!(list.consume_paragraph(), "a\n");
    let mut intro = SourceWalker::new("a\n!!!!!b\n");
    assert_eq!(intro.consume_paragraph(), "a\n");
    assert_eq!(intro.position(), 2);
}

#[test]
fn paragraph_reads_nothing_at_a_marker() {
    let mut walker = SourceWalker::new("# a");
    assert_eq!(walker.consume_paragraph(), "");
    assert_eq!(walker.position(), 0);
}

#[test]
fn paragraph_keeps_markers_inside_a_line() {
    let mut walker = SourceWalker::new("a # b * c !!!!! d\n");
    assert_eq!(walker.consume_paragraph(), "a # b * c !!!!! d\n");
}

#[test]
fn paragraph_marker_after_a_link_is_text() {
    let mut walker = SourceWalker::new("[a](b)# c\n");
    assert_eq!(walker.consume_paragraph(), "<a href=\"b\">a</a># c\n");
}

#[test]
fn paragraph_four_exclamation_marks_are_text() {
    let mut walker = SourceWalker::new("!!!! a\n");
    assert_eq!(walker.consume_paragraph(), "!!!! a\n");
}

#[test]
fn paragraph_fence_inside_text_opens_no_span() {
    let mut walker = SourceWalker::new("a ```b\n");
    assert_eq!(walker.consume_paragraph(), "a `<code></code>b\n");
}
