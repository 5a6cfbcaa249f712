use lexer::{is_valid_token, tokenize};

fn owned(v: &[&str]) -> Vec<String> {
    v.iter().map(|s| s.to_string()).collect()
}

#[test]
fn valid_tokens() {
    assert!(is_valid_token("123"));
    assert!(is_valid_token("abc1"));
    assert!(is_valid_token("+-*/\\"));
    assert!(is_valid_token("日本語"));
    assert!(!is_valid_token(""));
    assert!(!is_valid_token("1abc"));
    assert!(!is_valid_token("a-"));
    assert!(!is_valid_token("&"));
}

#[test]
fn tokenize_splits_greedily() {
    assert_eq!(tokenize("catfood-45", vec![]), Ok(owned(&["catfood", "-", "45"])));
    assert_eq!(tokenize("67z23", vec![]), Ok(owned(&["67", "z23"])));
}

#[test]
fn tokenize_appends_to_its_vector() {
    assert_eq!(tokenize("ab+", owned(&["x"])), Ok(owned(&["x", "ab", "+"])));
}

#[test]
fn tokenize_fails_with_the_rest() {
    assert_eq!(tokenize("&catfood-45", vec![]), Err("&catfood-45".to_string()));
    assert_eq!(tokenize("catfood&-45", vec![]), Err("&-45".to_string()));
    assert_eq!(tokenize("catfood-45&", vec![]), Err("&".to_string()));
    assert_eq!(tokenize("", vec![]), Err(String::new()));
}
