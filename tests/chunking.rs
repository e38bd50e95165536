use graph_rag::chunker::split_into_chunks;

#[test]
fn fifty_words_make_one_segment() {
    let words: Vec<String> = (0..50).map(|i| format!("word{}", i)).collect();
    let text = words.join(" ");
    let chunks = split_into_chunks(&text, 1200);
    assert_eq!(chunks, vec![text.clone()]);
}

#[test]
fn empty_and_blank_text_give_no_segment() {
    assert!(split_into_chunks("", 1200).is_empty());
    assert!(split_into_chunks("   \n\n \t \n\n", 1200).is_empty());
}

#[test]
fn paragraphs_are_trimmed_and_rejoined() {
    let chunks = split_into_chunks("  hello  \n\n\n\n  world ", 1200);
    assert_eq!(chunks, vec!["hello\n\nworld".to_string()]);
}

#[test]
fn three_newlines_leave_one_in_the_next_piece() {
    let chunks = split_into_chunks("a\n\n\nb", 1200);
    assert_eq!(chunks, vec!["a\n\nb".to_string()]);
}

#[test]
fn budget_counts_the_separator() {
    assert_eq!(split_into_chunks("a\n\nb", 3), vec!["a".to_string(), "b".to_string()]);
    assert_eq!(split_into_chunks("a\n\nb", 4), vec!["a\n\nb".to_string()]);
}

#[test]
fn budget_counts_utf8_bytes() {
    assert_eq!(split_into_chunks("éé\n\nb", 6), vec!["éé".to_string(), "b".to_string()]);
    assert_eq!(split_into_chunks("éé\n\nb", 7), vec!["éé\n\nb".to_string()]);
}

#[test]
fn long_paragraph_is_kept_whole() {
    let long = "x".repeat(50);
    let text = format!("short\n\n{}\n\ntail", long);
    let chunks = split_into_chunks(&text, 10);
    assert_eq!(chunks, vec!["short".to_string(), long, "tail".to_string()]);
}

#[test]
fn segments_reassemble_the_paragraphs_in_order() {
    let text = "one\n\ntwo two\n\n\n\nthree\n\nfour four four\n\nfive";
    let chunks = split_into_chunks(text, 12);
    for c in &chunks {
        assert!(!c.is_empty());
    }
    let rejoined: Vec<String> = chunks
        .iter()
        .flat_map(|c| c.split("\n\n").map(|p| p.to_string()).collect::<Vec<_>>())
        .collect();
    assert_eq!(rejoined, vec!["one", "two two", "three", "four four four", "five"]);
    assert_eq!(split_into_chunks(text, 100_000).len(), 1);
}

#[test]
fn greedy_packing_exact_segments() {
    let chunks = split_into_chunks("aaaa\n\nbb\n\ncc\n\nddddddd", 10);
    assert_eq!(chunks, vec!["aaaa\n\nbb".to_string(), "cc".to_string(), "ddddddd".to_string()]);
}
