use claude_arcade::scanner::weight::estimate_tokens;

#[test]
fn test_estimate_tokens() {
    // 13 chars = ceil(13/4) = 4 tokens
    assert_eq!(estimate_tokens("Hello, world!"), 4);

    // Empty string = 0 tokens
    assert_eq!(estimate_tokens(""), 0);

    // Single char = 1 token
    assert_eq!(estimate_tokens("a"), 1);
}

#[test]
fn estimate_tokens_counts_characters_not_bytes() {
    assert_eq!(estimate_tokens("éééé"), 1);
    assert_eq!(estimate_tokens("abcdefgh"), 2);
    assert_eq!(estimate_tokens("abcdefghi"), 3);
}
