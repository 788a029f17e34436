use ethabi::{ParamType, Token};

#[test]
fn decoded_parameters_encode_back_to_their_bytes() {
    let schema = vec![
        ParamType::Address,
        ParamType::Uint(256),
        ParamType::String,
        ParamType::Array(Box::new(ParamType::Bool)),
    ];
    let bytes = ethabi::encode(&[
        Token::Address([7u8; 20].into()),
        Token::Uint(12345u64.into()),
        Token::String("hello".to_string()),
        Token::Array(vec![Token::Bool(true), Token::Bool(false)]),
    ]);
    let decoded = ethabi::decode(&schema, &bytes).unwrap();
    assert_eq!(ethabi::encode(&decoded), bytes);
}

