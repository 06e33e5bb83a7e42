use interpreter::ast::{Node, Statement};
use interpreter::lexer::Lexer;
use interpreter::parser::Parser;

fn check_parser_error(p: &Parser) {
    let errors = p.errors();
    if errors.len() == 0 {
        return;
    }
    println!("parser has {} errors", errors.len());
    for msg in &errors {
        println!("parser error: {}", msg);
    }
    panic!();
}

fn test_let_statement(s: &Statement, name: String) -> bool {
    if s.token_literal() != "let".to_string() {
        println!("s.token_literal() not 'let'. got={}", s.token_literal());
        return false;
    }
    if let Some(let_statement) = s.as_let_statement() {
        if let_statement.name.value != name {
            println!(
                "let_statement.name.value not {}. got={}",
                name, let_statement.name.value
            );
            return false;
        }
        if let_statement.name.token_literal() != name {
            println!(
                "let_statement.name.token_literal() not {}. got={}",
                name,
                let_statement.name.token_literal()
            );
        }
    } else {
        println!("s not ast::LetStatement.");
        return false;
    }
    true
}

#[test]
fn test_let_statements() {
    let input = "
        let x = 5;
        let y = 10;
        let foobar = 8383838;
        ";
    let lexer = Lexer::new(input);
    let mut parser = Parser::new(lexer);
    let program = parser.parse_program();
    check_parser_error(&parser);
    if program.statements.len() != 3 {
        panic!(
            "program.statements does not contain 3 statements, got={}",
            program.statements.len()
        )
    }
    let expected_identifiers = ["x", "y", "foobar"];
    for i in 0..3 {
        let ident = expected_identifiers[i].to_string();
        if !test_let_statement(&program.statements[i], ident) {
            return;
        }
    }
}

#[test]
fn test_return_statements() {
    let input = "return 5;
        return 10;
        return 993322;";

    let lexer = Lexer::new(input);
    let mut parser = Parser::new(lexer);
    let program = parser.parse_program();
    check_parser_error(&parser);
    if program.statements.len() != 3 {
        panic!(
            "program.statements does not contain 3 statements, got={}",
            program.statements.len()
        )
    }
    for i in 0..3 {
        let return_statement = program.statements[i].as_return_statement();
        if let Some(statement) = return_statement {
            if statement.token_literal() != "return" {
                println!(
                    "statement.token_literal() not 'return', got {}.",
                    statement.token_literal()
                );
            }
        } else {
            println!("statement not ast::ReturnStatement.");
        }
    }
}

#[test]
fn test_single_let_statement_shape() {
    let lexer = Lexer::new("let x = 5;");
    let mut parser = Parser::new(lexer);
    let program = parser.parse_program();
    assert_eq!(parser.errors().len(), 0);
    assert_eq!(program.statements.len(), 1);
    let statement = &program.statements[0];
    assert_eq!(statement.token_literal(), "let");
    let let_statement = statement
        .as_let_statement()
        .expect("statement not downcastable to a let statement");
    assert_eq!(let_statement.name.value, "x");
    assert!(statement.as_return_statement().is_none());
}

#[test]
fn test_let_missing_assign_reports_one_diagnostic() {
    let lexer = Lexer::new("let x 5;");
    let mut parser = Parser::new(lexer);
    let program = parser.parse_program();
    assert_eq!(program.statements.len(), 0);
    let errors = parser.errors();
    assert_eq!(errors.len(), 1);
    assert_eq!(errors[0], "expected next token to be =, got 5 instead");
}

#[test]
fn test_let_missing_identifier_reports_diagnostic() {
    let lexer = Lexer::new("let = 5;");
    let mut parser = Parser::new(lexer);
    let program = parser.parse_program();
    assert_eq!(program.statements.len(), 0);
    let errors = parser.errors();
    assert_eq!(errors.len(), 1);
    assert_eq!(errors[0], "expected next token to be , got = instead");
}

#[test]
fn test_recovery_continues_after_bad_statement() {
    let lexer = Lexer::new("let x 5; return 7;");
    let mut parser = Parser::new(lexer);
    let program = parser.parse_program();
    assert_eq!(parser.errors().len(), 1);
    assert_eq!(program.statements.len(), 1);
    assert!(program.statements[0].as_return_statement().is_some());
}

#[test]
fn test_unrecognized_construct_is_skipped_silently() {
    let lexer = Lexer::new("5; let y = 2;");
    let mut parser = Parser::new(lexer);
    let program = parser.parse_program();
    assert_eq!(parser.errors().len(), 0);
    assert_eq!(program.statements.len(), 1);
    assert!(program.statements[0].as_let_statement().is_some());
}

#[test]
fn test_empty_input_parses_to_empty_program() {
    let lexer = Lexer::new("");
    let mut parser = Parser::new(lexer);
    let program = parser.parse_program();
    assert_eq!(program.statements.len(), 0);
    assert_eq!(parser.errors().len(), 0);
    assert_eq!(program.token_literal(), "");
}

#[test]
fn test_program_token_literal_is_first_statement() {
    let lexer = Lexer::new("return 1; let a = 2;");
    let mut parser = Parser::new(lexer);
    let program = parser.parse_program();
    assert_eq!(program.statements.len(), 2);
    assert_eq!(program.token_literal(), "return");
}
