use souls_lean::lean_vacuum::dedup::{
    clear_session_cache, clear_session_dedup_cache, deduplicate_blocks, deduplicate_blocks_session,
    is_session_cache_empty, new_session_cache, remember_block,
};

#[test]
fn test_deduplicate_blocks_5_lines() {
    let mut cache = new_session_cache();
    clear_session_dedup_cache(&mut cache);
    let block = "line1\nline2\nline3\nline4\nline5\n";
    let out1 = deduplicate_blocks_session(&mut cache, block, Some("file1.rs"));
    assert_eq!(out1, block);
    let out2 = deduplicate_blocks_session(&mut cache, block, Some("file2.rs"));
    assert!(out2.contains("// [dedup: 5 lines hidden. Duplicate of file1.rs lines L1-L5]"));
}

#[test]
fn test_cross_file_deduplication_successful() {
    let mut cache = new_session_cache();
    clear_session_dedup_cache(&mut cache);
    let block = "fn calculate_hash() {\n    let val = 42;\n    let result = val * 2;\n    println!(\"{}\", result);\n}\n";
    let out1 = deduplicate_blocks_session(&mut cache, block, Some("src/module_a.rs"));
    assert_eq!(out1, block);
    let out2 = deduplicate_blocks_session(&mut cache, block, Some("src/module_b.rs"));
    assert!(
        out2.contains("// [dedup: 5 lines hidden. Duplicate of src/module_a.rs lines L1-L5]"),
        "out2 foi: {out2}"
    );
}

#[test]
fn test_session_cache_clear_successful() {
    let mut cache = new_session_cache();
    remember_block(&mut cache, 12345, "src/main.rs".to_string(), 1, 5);
    assert!(!is_session_cache_empty(&cache), "O cache deveria conter dados simulados.");
    clear_session_cache(&mut cache);
    assert!(is_session_cache_empty(&cache), "O cache deveria estar completamente vazio pós-limpeza.");
}

#[test]
fn dedup_short_text_and_same_file_and_whitespace_normalization() {
    let mut cache = new_session_cache();
    assert_eq!(deduplicate_blocks(&mut cache, "a\nb\nc\nd"), "a\nb\nc\nd");
    let text = "a\nb\nc\nd\ne\nf";
    assert_eq!(deduplicate_blocks(&mut cache, text), text);
    assert_eq!(deduplicate_blocks(&mut cache, text), text);
    let spaced = "a\n  b \nc\nd\ne\nz";
    let out = deduplicate_blocks_session(&mut cache, spaced, Some("win\\dir\\x.rs"));
    assert_eq!(out, "// [dedup: 5 lines hidden. Duplicate of buffer lines L1-L5]\nz");
}

#[test]
fn a_file_is_never_deduplicated_against_itself() {
    let mut cache = new_session_cache();
    let text = "l1\nl2\nl3\nl4\nl5\nl1\nl2\nl3\nl4\nl5\n";
    assert_eq!(deduplicate_blocks_session(&mut cache, text, Some("src/a.rs")), text);
    assert_eq!(deduplicate_blocks_session(&mut cache, text, Some("src/a.rs")), text);
}

#[test]
fn after_clearing_no_block_is_hidden() {
    let mut cache = new_session_cache();
    let text = "l1\nl2\nl3\nl4\nl5\n";
    assert_eq!(deduplicate_blocks_session(&mut cache, text, Some("src/a.rs")), text);
    clear_session_cache(&mut cache);
    assert!(is_session_cache_empty(&cache));
    assert_eq!(deduplicate_blocks_session(&mut cache, text, Some("src/b.rs")), text);
}

#[test]
fn a_lone_carriage_return_inside_a_line_is_kept() {
    let mut cache = new_session_cache();
    let text = "a\rb\nl2\nl3\nl4\nl5\n";
    assert_eq!(deduplicate_blocks_session(&mut cache, text, Some("src/a.rs")), text);
}
