use md2ht::walker::SourceWalker;

#[test]
fn code_fence_is_three_backticks() {
    assert!(SourceWalker::new("```").is_code_block());
    assert!(SourceWalker::new("````").is_code_block());
    assert!(!SourceWalker::new("``").is_code_block());
    assert!(!SourceWalker::new("``a`").is_code_block());
    assert!(!SourceWalker::new("").is_code_block());
}

#[test]
fn intro_marker_is_five_exclamation_marks() {
    assert!(SourceWalker::new("!!!!!").is_intro_marker());
    assert!(SourceWalker::new("!!!!!!").is_intro_marker());
    assert!(!SourceWalker::new("!!!!").is_intro_marker());
    assert!(!SourceWalker::new("!!!!a!").is_intro_marker());
    assert!(!SourceWalker::new("").is_intro_marker());
}

#[test]
fn code_block_keeps_its_content() {
    let mut walker = SourceWalker::new("```\nlet x = 1;\n```");
    assert_eq!(walker.consume_code_block(), "<pre><code>\nlet x = 1;\n</code></pre>");
    assert_eq!(walker.peek(), None);
}

#[test]
fn code_block_keeps_shorter_runs_of_backticks() {
    let mut walker = SourceWalker::new("```a`b``c```d");
    assert_eq!(walker.eat_code_block(), "a`b``c");
    assert_eq!(walker.peek(), Some('d'));
}

#[test]
fn code_block_keeps_markup_and_white_space() {
    let mut walker = SourceWalker::new("```  # h\n* [a](b)\n\n\t!!!!!```");
    assert_eq!(walker.eat_code_block(), "  # h\n* [a](b)\n\n\t!!!!!");
}

#[test]
fn code_block_without_end_takes_the_rest() {
    let mut walker = SourceWalker::new("```abc\ndef``");
    assert_eq!(walker.consume_code_block(), "<pre><code>abc\ndef``</code></pre>");
    assert_eq!(walker.position(), 12);
}

#[test]
fn code_block_may_be_empty() {
    let mut walker = SourceWalker::new("``````x");
    assert_eq!(walker.consume_code_block(), "<pre><code></code></pre>");
    assert_eq!(walker.position(), 6);
    let mut open = SourceWalker::new("```");
    assert_eq!(open.consume_code_block(), "<pre><code></code></pre>");
    assert_eq!(open.position(), 3);
}

#[test]
fn heading_of_depth_one() {
    let mut walker = SourceWalker::new("# Title");
    assert_eq!(walker.consume_heading(), "<h1>Title</h1><hr>");
    assert_eq!(walker.peek(), None);
}

#[test]
fn heading_of_depth_three() {
    let mut walker = SourceWalker::new("### Title\nrest");
    assert_eq!(walker.consume_heading(), "<h3>Title</h3><hr>");
    assert_eq!(walker.peek(), Some('r'));
}

#[test]
fn heading_depth_has_no_limit() {
    let mut walker = SourceWalker::new("############ deep\n");
    assert_eq!(walker.consume_heading(), "<h12>deep</h12><hr>");
}

#[test]
fn heading_title_is_trimmed_and_not_rewritten() {
    let mut walker = SourceWalker::new("##   a [b](c) <i>  \n");
    assert_eq!(walker.consume_heading(), "<h2>a [b](c) <i></h2><hr>");
}

#[test]
fn heading_without_title() {
    let mut walker = SourceWalker::new("##");
    assert_eq!(walker.consume_heading(), "<h2></h2><hr>");
    let mut none = SourceWalker::new("abc\n");
    assert_eq!(none.consume_heading(), "<h0>abc</h0><hr>");
}

#[test]
fn list_items_come_in_order() {
    let mut walker = SourceWalker::new("* a\n* b\n");
    assert_eq!(walker.read_list(), vec!["a".to_string(), "b".to_string()]);
    assert_eq!(walker.peek(), None);
}

#[test]
fn list_element_has_one_line_per_item() {
    let mut walker = SourceWalker::new("* a\n* b\n");
    assert_eq!(walker.consume_list(), "<ul>\n\t<li>a</li>\n\t<li>b</li>\n</ul>");
}

#[test]
fn list_ends_at_the_first_other_character() {
    let mut walker = SourceWalker::new("* a\n* b\nc\n* d\n");
    assert_eq!(walker.read_list(), vec!["a".to_string(), "b\nc".to_string(), "d".to_string()]);
    let mut other = SourceWalker::new("* a\n\nb\n* c\n");
    assert_eq!(other.read_list(), vec!["a".to_string()]);
    assert_eq!(other.peek(), Some('b'));
    let mut parted = SourceWalker::new("* a\n\n* b\n");
    assert_eq!(parted.read_list(), vec!["a".to_string(), "b".to_string()]);
}

#[test]
fn list_items_hold_links_and_code() {
    let mut walker = SourceWalker::new("* [a](b)\n* `c`\n");
    assert_eq!(
        walker.consume_list(),
        "<ul>\n\t<li><a href=\"b\">a</a></li>\n\t<li><code>c</code></li>\n</ul>"
    );
}

#[test]
fn list_item_may_be_empty() {
    let mut walker = SourceWalker::new("**a\n");
    assert_eq!(walker.read_list(), vec!["".to_string(), "a".to_string()]);
}

#[test]
fn list_without_items() {
    let mut walker = SourceWalker::new("a");
    assert_eq!(walker.read_list(), Vec::<String>::new());
    assert_eq!(walker.consume_list(), "<ul>\n</ul>");
    assert_eq!(walker.position(), 0);
}

#[test]
fn intro_wraps_its_paragraphs() {
    let mut walker = SourceWalker::new("!!!!!Hello\n\nWorld\n!!!!!after");
    assert_eq!(walker.consume_intro(), "<a-intro><p>Hello\n\n</p><p>World\n</p></a-intro>");
    assert_eq!(walker.peek(), Some('a'));
}

#[test]
fn intro_without_end_takes_the_rest() {
    let mut walker = SourceWalker::new("!!!!!abc");
    assert_eq!(walker.consume_intro(), "<a-intro><p>abc</p></a-intro>");
    assert_eq!(walker.peek(), None);
}

#[test]
fn intro_may_be_empty() {
    let mut walker = SourceWalker::new("!!!!!!!!!!x");
    assert_eq!(walker.consume_intro(), "<a-intro></a-intro>");
    assert_eq!(walker.position(), 10);
}

#[test]
fn intro_ends_before_a_heading() {
    let mut walker = SourceWalker::new("!!!!!a\n# b\n");
    assert_eq!(walker.consume_intro(), "<a-intro><p>a\n</p></a-intro>");
    assert_eq!(walker.peek(), Some('#'));
}
