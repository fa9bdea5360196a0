use souls_lean::lean_vacuum::smart_read::{
    count_tokens, extract_outline_signatures, smart_read_text, smart_read_with_counts,
};

#[test]
fn test_smart_read_budget_enforcement() {
    let mut code = String::from("pub fn large_function() {\n");
    for i in 0..3000 {
        code.push_str(&format!("    let var_{i} = {i};\n"));
    }
    code.push_str("}\n");

    let initial_count = count_tokens(&code);
    assert!(initial_count > 500);

    let result = smart_read_text(&code, 200).expect("must shrink");
    let shrink_tokens = count_tokens(&result);
    assert!(shrink_tokens <= 200, "token count {shrink_tokens} exceeded 200");
    assert!(result.contains("/* body omitted */"));

    let err = smart_read_text(&code, 5);
    assert!(err.is_err());
    let (code_err, msg) = err.unwrap_err();
    assert_eq!(code_err, -32010);
    assert!(msg.contains("Context Budget Exceeded"));
}

#[test]
fn count_tokens_of_empty_text_is_zero() {
    assert_eq!(count_tokens(""), 0);
    assert!(count_tokens("hello world") > 0);
}

#[test]
fn smart_read_with_counts_picks_first_fitting_stage() {
    assert_eq!(smart_read_with_counts("a\n\n\nb", 10, 5, 1, 1), Ok("a\n\n\nb".to_string()));
    assert_eq!(smart_read_with_counts("a\n\n\nb", 3, 5, 2, 1), Ok("a\n\nb".to_string()));
    assert_eq!(
        smart_read_with_counts("fn f() {\n 1\n}", 3, 5, 4, 2),
        Ok("fn f() { /* body omitted */ }".to_string())
    );
    assert_eq!(
        smart_read_with_counts("x", 3, 5, 4, 7),
        Err((
            -32010,
            "Context Budget Exceeded: arquivo desidratado com 7 tokens excede o limite estrito de 3 tokens."
                .to_string()
        ))
    );
}

#[test]
fn extract_outline_signatures_omits_bodies() {
    let code = "use std::fmt;\n\npub struct A {\n    x: u8,\n}\nimpl A {\n    pub fn get(&self) -> u8 { self.x }\n}\n";
    assert_eq!(
        extract_outline_signatures(code),
        "use std::fmt;\npub struct A { /* body omitted */ }\nimpl A { /* body omitted */ }\n    pub fn get(&self) -> u8 { /* body omitted */ }"
    );
    assert_eq!(extract_outline_signatures("plain\ntext"), "plain\ntext");
}
