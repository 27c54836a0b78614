use websearch::content::{accepts, extract_content, join_lines, page_content, paragraph_fragment};

fn texts(items: &[&str]) -> Vec<String> {
    items.iter().map(|s| s.to_string()).collect()
}

#[test]
fn three_tokens_are_too_few() {
    assert!(!accepts("Too short sentence."));
    let page = page_content(&vec![texts(&["Too short sentence."])]);
    assert!(page.fragments.is_empty());
}

#[test]
fn four_tokens_are_too_few_and_five_are_enough() {
    assert!(!accepts("one two three four."));
    assert!(accepts("one two three four five."));
}

#[test]
fn six_tokens_without_terminal_punctuation_are_rejected() {
    assert!(!accepts("one two three four five six"));
    assert!(!accepts("one two three four five six,"));
    let page = page_content(&vec![texts(&["one two three four five six"])]);
    assert!(page.fragments.is_empty());
}

#[test]
fn six_tokens_ending_in_exclamation_mark_are_accepted_verbatim() {
    assert!(accepts("one two three four five six!"));
    let page = page_content(&vec![texts(&["  one two three   four five six! \n"])]);
    assert_eq!(page.fragments, vec!["one two three   four five six!".to_string()]);
}

#[test]
fn question_mark_and_full_stop_end_a_sentence() {
    assert!(accepts("is this one of the accepted ones?"));
    assert!(accepts("this is one of the accepted ones."));
}

#[test]
fn empty_fragment_is_rejected() {
    assert!(!accepts(""));
    let page = page_content(&vec![texts(&["   \n\t "]), texts(&[]), texts(&[""])]);
    assert!(page.fragments.is_empty());
}

#[test]
fn punctuation_alone_is_rejected() {
    assert!(!accepts("."));
    assert!(!accepts(". . . ."));
    assert!(accepts(". . . . ."));
}

#[test]
fn tokens_are_separated_by_any_whitespace() {
    assert!(accepts("one\ttwo\nthree\u{a0}four\u{3000}five."));
    assert!(!accepts("one-two-three-four-five."));
}

#[test]
fn text_nodes_are_joined_by_single_spaces() {
    assert_eq!(
        paragraph_fragment(&texts(&["A ", "bold", " claim."])),
        "A  bold  claim."
    );
    assert_eq!(paragraph_fragment(&texts(&["one"])), "one");
    assert_eq!(paragraph_fragment(&texts(&[])), "");
    assert_eq!(paragraph_fragment(&texts(&[" ", "x", " "])), "x");
}

#[test]
fn tokens_are_counted_across_text_nodes() {
    let page = page_content(&vec![texts(&["one two", "three", "four five."])]);
    assert_eq!(page.fragments, vec!["one two three four five.".to_string()]);
}

#[test]
fn fragments_keep_the_order_of_the_paragraphs() {
    let page = page_content(&vec![
        texts(&["This is the first good sentence."]),
        texts(&["short."]),
        texts(&["And this is the second good one!"]),
        texts(&["no end on this longer line here"]),
        texts(&["Is this the third one of them?"]),
    ]);
    assert_eq!(
        page.fragments,
        vec![
            "This is the first good sentence.".to_string(),
            "And this is the second good one!".to_string(),
            "Is this the third one of them?".to_string(),
        ]
    );
    assert_eq!(
        page.text(),
        "This is the first good sentence.\nAnd this is the second good one!\nIs this the third one of them?"
    );
}

#[test]
fn lines_are_joined_by_newlines() {
    assert_eq!(join_lines(&texts(&[])), "");
    assert_eq!(join_lines(&texts(&["a"])), "a");
    assert_eq!(join_lines(&texts(&["a", "b", "c"])), "a\nb\nc");
    assert_eq!(join_lines(&texts(&["", ""])), "\n");
}

const TARGET_PAGE: &str = r#"<html><head><title>Title of the page that is long.</title></head>
<body>
<h1>A heading that has more than five tokens.</h1>
<p>  The first paragraph of the page is a sentence.  </p>
<p>Menu</p>
<div><p>Nested <b>markup</b> is read as text of the paragraph!</p></div>
<p>This paragraph has no end but many words</p>
<p></p>
</body></html>"#;

#[test]
fn paragraphs_are_read_from_the_page() {
    let page = extract_content(TARGET_PAGE);
    assert_eq!(
        page.fragments,
        vec![
            "The first paragraph of the page is a sentence.".to_string(),
            "Nested  markup  is read as text of the paragraph!".to_string(),
        ]
    );
}

#[test]
fn page_without_paragraphs_has_no_content() {
    assert!(extract_content("<html><body><div>Not a paragraph of this page at all.</div></body></html>")
        .fragments
        .is_empty());
    assert!(extract_content("").fragments.is_empty());
    assert_eq!(extract_content("").text(), "");
}
