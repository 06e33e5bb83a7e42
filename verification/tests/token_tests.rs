use interpreter::token::{lookup_ident, Token};

#[test]
fn test_lookup_ident_resolves_keywords() {
    assert_eq!(lookup_ident(&String::from("fn")), Token::Function);
    assert_eq!(lookup_ident(&String::from("let")), Token::Let);
    assert_eq!(lookup_ident(&String::from("true")), Token::True);
    assert_eq!(lookup_ident(&String::from("false")), Token::False);
    assert_eq!(lookup_ident(&String::from("if")), Token::If);
    assert_eq!(lookup_ident(&String::from("else")), Token::Else);
    assert_eq!(lookup_ident(&String::from("return")), Token::Return);
}

#[test]
fn test_lookup_ident_keeps_other_text_verbatim() {
    assert_eq!(
        lookup_ident(&String::from("foobar")),
        Token::Ident(String::from("foobar"))
    );
    assert_eq!(
        lookup_ident(&String::from("lets")),
        Token::Ident(String::from("lets"))
    );
    assert_eq!(
        lookup_ident(&String::from("Fn")),
        Token::Ident(String::from("Fn"))
    );
    assert_eq!(lookup_ident(&String::from("")), Token::Ident(String::new()));
}

#[test]
fn test_token_literal_display_forms() {
    assert_eq!(Token::Eof.literal(), "EOF");
    assert_eq!(Token::Assign.literal(), "=");
    assert_eq!(Token::Plus.literal(), "+");
    assert_eq!(Token::Minus.literal(), "-");
    assert_eq!(Token::Bang.literal(), "!");
    assert_eq!(Token::Asterisk.literal(), "*");
    assert_eq!(Token::Slash.literal(), "/");
    assert_eq!(Token::Lt.literal(), "<");
    assert_eq!(Token::Gt.literal(), ">");
    assert_eq!(Token::Comma.literal(), ",");
    assert_eq!(Token::Semicolon.literal(), ";");
    assert_eq!(Token::Lparen.literal(), "(");
    assert_eq!(Token::Rparen.literal(), ")");
    assert_eq!(Token::Lbrace.literal(), "{");
    assert_eq!(Token::Rbrace.literal(), "}");
    assert_eq!(Token::Function.literal(), "fn");
    assert_eq!(Token::Let.literal(), "let");
    assert_eq!(Token::True.literal(), "true");
    assert_eq!(Token::False.literal(), "false");
    assert_eq!(Token::If.literal(), "if");
    assert_eq!(Token::Else.literal(), "else");
    assert_eq!(Token::Return.literal(), "return");
    assert_eq!(Token::Ident(String::from("abc")).literal(), "abc");
    assert_eq!(Token::Int(String::from("42")).literal(), "42");
}

#[test]
fn test_token_kind_predicates() {
    assert!(Token::Ident(String::from("x")).is_ident());
    assert!(!Token::Int(String::from("1")).is_ident());
    assert!(Token::Int(String::from("1")).is_int());
    assert!(!Token::Let.is_int());
    assert!(Token::Illegal('@').is_illegal());
    assert!(!Token::Eof.is_illegal());
}

#[test]
fn test_tokens_compare_by_carried_text() {
    assert_eq!(
        Token::Ident(String::from("x")),
        Token::Ident(String::from("x"))
    );
    assert_ne!(
        Token::Ident(String::from("x")),
        Token::Ident(String::from("y"))
    );
    assert_ne!(Token::Ident(String::from("5")), Token::Int(String::from("5")));
    assert_eq!(Token::Illegal('@'), Token::Illegal('@'));
    assert_ne!(Token::Illegal('@'), Token::Illegal('#'));
}
