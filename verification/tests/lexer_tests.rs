use interpreter::lexer::Lexer;
use interpreter::token::Token;

#[test]
fn test_next_token() {
    let input: &str = "let five = 5;
        let ten = 10;
        let add = fn(x, y){
            x + y;
        };

        let result = add(five, ten);
        !-/*5;
        5 < 10 > 5;

        if(5 < 10) {
            return true;
        } else {
            return false;
        }
        ";

    let expected_output = [
        Token::Let,
        Token::Ident(String::from("five")),
        Token::Assign,
        Token::Int(String::from("5")),
        Token::Semicolon,
        Token::Let,
        Token::Ident(String::from("ten")),
        Token::Assign,
        Token::Int(String::from("10")),
        Token::Semicolon,
        Token::Let,
        Token::Ident(String::from("add")),
        Token::Assign,
        Token::Function,
        Token::Lparen,
        Token::Ident(String::from("x")),
        Token::Comma,
        Token::Ident(String::from("y")),
        Token::Rparen,
        Token::Lbrace,
        Token::Ident(String::from("x")),
        Token::Plus,
        Token::Ident(String::from("y")),
        Token::Semicolon,
        Token::Rbrace,
        Token::Semicolon,
        Token::Let,
        Token::Ident(String::from("result")),
        Token::Assign,
        Token::Ident(String::from("add")),
        Token::Lparen,
        Token::Ident(String::from("five")),
        Token::Comma,
        Token::Ident(String::from("ten")),
        Token::Rparen,
        Token::Semicolon,
        Token::Bang,
        Token::Minus,
        Token::Slash,
        Token::Asterisk,
        Token::Int(String::from("5")),
        Token::Semicolon,
        Token::Int(String::from("5")),
        Token::Lt,
        Token::Int(String::from("10")),
        Token::Gt,
        Token::Int(String::from("5")),
        Token::Semicolon,
        Token::If,
        Token::Lparen,
        Token::Int(String::from("5")),
        Token::Lt,
        Token::Int(String::from("10")),
        Token::Rparen,
        Token::Lbrace,
        Token::Return,
        Token::True,
        Token::Semicolon,
        Token::Rbrace,
        Token::Else,
        Token::Lbrace,
        Token::Return,
        Token::False,
        Token::Semicolon,
        Token::Rbrace,
        Token::Eof,
    ];

    let mut lexer = Lexer::new(input);

    for i in 0..expected_output.len() {
        let tok = lexer.next_token();
        assert_eq!(
            tok, expected_output[i],
            "Token number {i}: expected {:?}, got {:?}",
            expected_output[i], tok
        );
    }
}

#[test]
fn test_end_to_end_token_stream() {
    let input = "let five = 5; let ten = 10; let add = fn(x, y) { x + y; };";
    let expected = [
        Token::Let,
        Token::Ident(String::from("five")),
        Token::Assign,
        Token::Int(String::from("5")),
        Token::Semicolon,
        Token::Let,
        Token::Ident(String::from("ten")),
        Token::Assign,
        Token::Int(String::from("10")),
        Token::Semicolon,
        Token::Let,
        Token::Ident(String::from("add")),
        Token::Assign,
        Token::Function,
        Token::Lparen,
        Token::Ident(String::from("x")),
        Token::Comma,
        Token::Ident(String::from("y")),
        Token::Rparen,
        Token::Lbrace,
        Token::Ident(String::from("x")),
        Token::Plus,
        Token::Ident(String::from("y")),
        Token::Semicolon,
        Token::Rbrace,
        Token::Semicolon,
        Token::Eof,
    ];
    let mut lexer = Lexer::new(input);
    for expected_token in expected.iter() {
        assert_eq!(*expected_token, lexer.next_token());
    }
}

#[test]
fn test_single_character_symbols() {
    let input = "=+-!*/<>,;(){}";
    let expected = [
        Token::Assign,
        Token::Plus,
        Token::Minus,
        Token::Bang,
        Token::Asterisk,
        Token::Slash,
        Token::Lt,
        Token::Gt,
        Token::Comma,
        Token::Semicolon,
        Token::Lparen,
        Token::Rparen,
        Token::Lbrace,
        Token::Rbrace,
        Token::Eof,
    ];
    let mut lexer = Lexer::new(input);
    for expected_token in expected.iter() {
        assert_eq!(*expected_token, lexer.next_token());
    }
}

#[test]
fn test_eof_is_idempotent() {
    let mut lexer = Lexer::new("x");
    assert_eq!(lexer.next_token(), Token::Ident(String::from("x")));
    for _ in 0..10 {
        assert_eq!(lexer.next_token(), Token::Eof);
    }
}

#[test]
fn test_empty_input_yields_eof() {
    let mut lexer = Lexer::new("");
    assert_eq!(lexer.next_token(), Token::Eof);
    assert_eq!(lexer.next_token(), Token::Eof);
}

#[test]
fn test_whitespace_only_input_yields_eof() {
    let mut lexer = Lexer::new(" \t\r\n  ");
    assert_eq!(lexer.next_token(), Token::Eof);
}

#[test]
fn test_illegal_character_is_reported_and_passed() {
    let mut lexer = Lexer::new("a @ b");
    assert_eq!(lexer.next_token(), Token::Ident(String::from("a")));
    assert_eq!(lexer.next_token(), Token::Illegal('@'));
    assert_eq!(lexer.next_token(), Token::Ident(String::from("b")));
    assert_eq!(lexer.next_token(), Token::Eof);
}

#[test]
fn test_maximal_identifier_run() {
    let mut lexer = Lexer::new("foo_bar123");
    assert_eq!(lexer.next_token(), Token::Ident(String::from("foo_bar")));
    assert_eq!(lexer.next_token(), Token::Int(String::from("123")));
    assert_eq!(lexer.next_token(), Token::Eof);
}

#[test]
fn test_maximal_digit_run_kept_verbatim() {
    let mut lexer = Lexer::new("00123456789012345678901234567890;");
    assert_eq!(
        lexer.next_token(),
        Token::Int(String::from("00123456789012345678901234567890"))
    );
    assert_eq!(lexer.next_token(), Token::Semicolon);
    assert_eq!(lexer.next_token(), Token::Eof);
}

#[test]
fn test_all_keywords() {
    let mut lexer = Lexer::new("fn let true false if else return");
    let expected = [
        Token::Function,
        Token::Let,
        Token::True,
        Token::False,
        Token::If,
        Token::Else,
        Token::Return,
        Token::Eof,
    ];
    for expected_token in expected.iter() {
        assert_eq!(*expected_token, lexer.next_token());
    }
}

#[test]
fn test_minus_is_a_separate_token() {
    let mut lexer = Lexer::new("-5");
    assert_eq!(lexer.next_token(), Token::Minus);
    assert_eq!(lexer.next_token(), Token::Int(String::from("5")));
}
