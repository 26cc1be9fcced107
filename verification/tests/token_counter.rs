use file_surfer::token_counter::{estimate_tokens, estimate_tokens_batch};

#[test]
fn test_token_estimation() {
    let text = "Hello world! This is a test.";
    let estimate = estimate_tokens(text);

    assert!(estimate.total_tokens > 0);
    assert!(estimate.char_count == 28);
    assert!(estimate.word_count == 6);
}

#[test]
fn test_empty_string() {
    let estimate = estimate_tokens("");
    assert_eq!(estimate.total_tokens, 1); // Minimum 1 token
}

#[test]
fn token_estimation_exact_values() {
    // 28 bytes -> 7 byte-tokens; 6 words -> 7 word-tokens; average 7.
    let estimate = estimate_tokens("Hello world! This is a test.");
    assert_eq!(estimate.char_count, 28);
    assert_eq!(estimate.word_count, 6);
    assert_eq!(estimate.line_count, 1);
    assert_eq!(estimate.gpt4_estimate, 7);
    assert_eq!(estimate.total_tokens, 7);
    assert_eq!(estimate.claude_estimate, 7 * 21 / 20);
    assert_eq!(estimate.gemini_estimate, 7 * 9 / 10);
}

#[test]
fn token_estimation_counts_lines_and_multibyte_bytes() {
    let estimate = estimate_tokens("a\nb\nc");
    assert_eq!(estimate.line_count, 3);
    assert_eq!(estimate.word_count, 3);

    // One two-byte character: byte count differs from character count.
    let est2 = estimate_tokens("\u{e9}");
    assert_eq!(est2.char_count, 2);
    assert_eq!(est2.word_count, 1);
}

#[test]
fn token_estimation_batch_pairs_paths() {
    let files = vec![
        ("a.txt".to_string(), "Hello world! This is a test.".to_string()),
        ("b.txt".to_string(), String::new()),
    ];
    let out = estimate_tokens_batch(&files);
    assert_eq!(out.len(), 2);
    assert_eq!(out[0].0, "a.txt");
    assert_eq!(out[0].1.char_count, 28);
    assert_eq!(out[1].0, "b.txt");
    assert_eq!(out[1].1.total_tokens, 1);
}
