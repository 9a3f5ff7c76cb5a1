use wurdump::pattern::Pattern;

#[test]
fn compiled_pattern_matches_anywhere() {
    let p = Pattern::compile(r"a+b");
    assert!(p.is_match("xxaab"));
    assert!(!p.is_match("ba"));
    assert!(p.is_match("ab"));
}

#[test]
fn pattern_that_does_not_compile_matches_nothing() {
    let p = Pattern::compile(r"(unclosed");
    assert!(!p.is_match("(unclosed"));
    assert!(!p.is_match(""));
}
