use url_shortener::codegen::random_short_code;

#[test]
fn generated_code_has_configured_length() {
    for len in [1usize, 6, 16] {
        let code = random_short_code(len);
        assert_eq!(code.chars().count(), len);
    }
}

#[test]
fn generated_code_uses_only_the_alphabet() {
    let code = random_short_code(64);
    assert!(code.chars().all(|c| c.is_ascii_alphanumeric()));
}

#[test]
fn generated_code_of_length_zero_is_empty() {
    assert_eq!(random_short_code(0), String::new());
}
