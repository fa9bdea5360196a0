use souls_lean::context_compression::dedup::{
    cached_original, ccr_marker_for, clear_ccr_cache, compress, hash_text, headroom_lookup, new_ccr_cache, rehydrate_ccr,
    store_original, MARKER_PREFIX,
};

#[test]
fn test_dedup_5_lines_trigger_v550() {
    let mut cache = new_ccr_cache();
    let short_text = "line1\nline2\nline3\nline4\nline5";
    let out_short = compress(&mut cache, short_text);
    assert_eq!(out_short, short_text, "5 lines or fewer must NOT be compressed");
    let long_text = "line1\nline2\nline3\nline4\nline5\nline6";
    let out_long = compress(&mut cache, long_text);
    assert!(out_long.contains(MARKER_PREFIX), "More than 5 lines must trigger CCR compression");
}

#[test]
fn test_fill_rehydration_equivalence_v550() {
    let mut cache = new_ccr_cache();
    let fallback = new_ccr_cache();
    clear_ccr_cache(&mut cache);
    let original_code = "fn calculate_fast_hash() {\n    let mut sum = 0;\n    for i in 0..100 {\n        sum += i;\n    }\n    println!(\"sum: {}\", sum);\n}\n";
    let compressed = compress(&mut cache, original_code);
    assert_ne!(compressed, original_code);
    let rehydrated = rehydrate_ccr(&cache, &fallback, &compressed);
    assert_eq!(rehydrated, original_code, "Rehydration must yield 100% byte-for-byte lossless match");
}

#[test]
fn test_loopback_interception_latency() {
    let mut cache = new_ccr_cache();
    clear_ccr_cache(&mut cache);
    let hash_u64: u64 = 0x123456789ABCDEF0;
    let sample_payload = "fn benchmark_latency() { println!(\"Zero VRAM RAM retrieval\"); }".to_string();
    store_original(&mut cache, hash_u64, sample_payload.clone());
    let t0 = std::time::Instant::now();
    let retrieved = cached_original(&cache, hash_u64);
    let elapsed = t0.elapsed();
    assert!(retrieved.is_some());
    assert_eq!(retrieved.unwrap(), sample_payload);
    let elapsed_ms = elapsed.as_secs_f64() * 1000.0;
    assert!(elapsed_ms < 1.0, "Host RAM DashMap retrieval latency must be strictly < 1.0ms, got {elapsed_ms:.4}ms");
}

#[test]
fn marker_format_and_hash_are_exact() {
    assert_eq!(
        ccr_marker_for(7, "ff"),
        "[SOULS CCR: 7 linhas comprimidas. Para recuperar os dados integrais brutos, invoque a ferramenta headroom_retrieve(hash=\"ff\")]"
    );
    let mut h = std::collections::hash_map::DefaultHasher::new();
    std::hash::Hasher::write(&mut h, "abc".as_bytes());
    assert_eq!(hash_text("abc"), std::hash::Hasher::finish(&h));
    let mut cache = new_ccr_cache();
    let text = "1\n2\n3\n4\n5\n6\n";
    let marker = compress(&mut cache, text);
    assert_eq!(marker, ccr_marker_for(6, &format!("{:x}", hash_text(text))));
    assert_eq!(cached_original(&cache, hash_text(text)), Some(text.to_string()));
}

#[test]
fn rehydrate_uses_fallback_and_legacy_markers() {
    let primary = new_ccr_cache();
    let mut fallback = new_ccr_cache();
    store_original(&mut fallback, 0xABC, "BLOCK".to_string());
    let legacy = "x [SOULS-DEDUP: Block Hash 0x0000000000000abc. Use souls_fill para resgatar se necessário] y";
    assert_eq!(rehydrate_ccr(&primary, &fallback, legacy), "x BLOCK y");
    let ccr = "<[SOULS CCR: 9 linhas comprimidas. hash=\"+AbC\")]>";
    assert_eq!(rehydrate_ccr(&primary, &fallback, ccr), "<BLOCK>");
    let unknown = "[SOULS CCR: 1 hash=\"zz\")]";
    assert_eq!(rehydrate_ccr(&primary, &fallback, unknown), unknown);
}

#[test]
fn headroom_lookup_reads_hex_hashes() {
    let mut cache = new_ccr_cache();
    store_original(&mut cache, 0xabc, "original".to_string());
    assert_eq!(headroom_lookup(&cache, " 0xABC "), Some("original".to_string()));
    assert_eq!(headroom_lookup(&cache, "abc"), Some("original".to_string()));
    assert_eq!(headroom_lookup(&cache, "0x1"), None);
    assert_eq!(headroom_lookup(&cache, "zz"), None);
}

#[test]
fn rehydration_restores_a_text_that_holds_marker_text() {
    let mut cache = new_ccr_cache();
    let fallback = new_ccr_cache();
    let original = "a\nb\n[SOULS CCR: not a real marker\nc\nd\ne\nf\n";
    let compressed = compress(&mut cache, original);
    assert_ne!(compressed, original);
    assert_eq!(rehydrate_ccr(&cache, &fallback, &compressed), original);
}

#[test]
fn rehydration_leaves_plain_text_alone() {
    let cache = new_ccr_cache();
    let fallback = new_ccr_cache();
    let plain = "nothing to expand here\nsecond line";
    assert_eq!(rehydrate_ccr(&cache, &fallback, plain), plain);
}
