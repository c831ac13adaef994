use sentinel::auth::{encode_token, generate_api_token};

#[test]
fn test_token_generation() {
    let token1 = generate_api_token();
    let token2 = generate_api_token();

    assert_eq!(token1.len(), 64);
    assert_eq!(token2.len(), 64);

    assert_ne!(token1, token2);
}

#[test]
fn tokens_are_lower_case_hexadecimal() {
    let token = generate_api_token();
    assert!(token.chars().all(|c| c.is_ascii_digit() || ('a'..='f').contains(&c)));
}

#[test]
fn encode_token_writes_two_digits_per_byte() {
    assert_eq!(encode_token(&vec![]), "");
    assert_eq!(encode_token(&vec![0x00, 0x01, 0x0f, 0x10, 0xab, 0xff]), "00010f10abff");
    assert_eq!(encode_token(&vec![1, 2, 3, 15, 16]), "0102030f10");
}
