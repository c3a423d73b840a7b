use tfi_lang::ast::Expression;
use tfi_lang::ast::Statement;
use tfi_lang::parser::format_parse_error;
use tfi_lang::parser::generate_generic_suggestion;
use tfi_lang::parser::parse_program;
use tfi_lang::parser::ParseErrorInfo;

#[test]
fn test_parse_print_statement() {
    let source = r#"bahubali("Hello, world!");"#;
    let result = parse_program(source);
    assert!(result.is_ok());

    let statements = result.unwrap();
    assert_eq!(statements.len(), 1);

    if let Statement::Print(expressions) = &statements[0] {
        assert_eq!(expressions.len(), 1);
        if let Expression::String(s) = &expressions[0] {
            assert_eq!(s, "Hello, world!");
        } else {
            panic!("Expected string expression");
        }
    } else {
        panic!("Expected print statement");
    }
}

#[test]
fn test_parse_const_declaration() {
    let source = "rrr x = 42;";
    let result = parse_program(source);
    assert!(result.is_ok());

    let statements = result.unwrap();
    assert_eq!(statements.len(), 1);

    if let Statement::Const(name, expr) = &statements[0] {
        assert_eq!(name, "x");
        if let Expression::Number(n) = expr {
            assert_eq!(*n, 42);
        } else {
            panic!("Expected number expression");
        }
    } else {
        panic!("Expected const statement");
    }
}

#[test]
fn test_parse_let_declaration() {
    let source = "pushpa y = 10;";
    let result = parse_program(source);
    assert!(result.is_ok());

    let statements = result.unwrap();
    assert_eq!(statements.len(), 1);

    if let Statement::Let(name, expr) = &statements[0] {
        assert_eq!(name, "y");
        if let Expression::Number(n) = expr {
            assert_eq!(*n, 10);
        } else {
            panic!("Expected number expression");
        }
    } else {
        panic!("Expected let statement");
    }
}

#[test]
fn test_parse_binary_expression() {
    let source = "rrr result = 5 + 3;";
    let result = parse_program(source);
    assert!(result.is_ok());

    let statements = result.unwrap();
    assert_eq!(statements.len(), 1);

    if let Statement::Const(_, expr) = &statements[0] {
        if let Expression::BinaryOp(left, op, right) = expr {
            assert_eq!(op, "+");
            if let Expression::Number(n) = **left {
                assert_eq!(n, 5);
            } else {
                panic!("Expected left operand to be number");
            }
            if let Expression::Number(n) = **right {
                assert_eq!(n, 3);
            } else {
                panic!("Expected right operand to be number");
            }
        } else {
            panic!("Expected binary operation");
        }
    } else {
        panic!("Expected const statement");
    }
}

#[test]
fn test_parse_if_statement() {
    let source = r#"
            magadheera(1 > 0) {
                bahubali("true");
            }
        "#;
    let result = parse_program(source);
    assert!(result.is_ok());

    let statements = result.unwrap();
    assert_eq!(statements.len(), 1);

    if let Statement::If(cond, then_block, else_block) = &statements[0] {
        assert_eq!(then_block.len(), 1);
        assert!(else_block.is_none());

        if let Expression::BinaryOp(left, op, right) = cond {
            assert_eq!(op, ">");
            if let Expression::Number(n) = **left {
                assert_eq!(n, 1);
            } else {
                panic!("Expected left operand to be number");
            }
            if let Expression::Number(n) = **right {
                assert_eq!(n, 0);
            } else {
                panic!("Expected right operand to be number");
            }
        } else {
            panic!("Expected binary operation in condition");
        }
    } else {
        panic!("Expected if statement");
    }
}

#[test]
fn test_parse_empty_program_error() {
    let source = "";
    let result = parse_program(source);
    assert!(result.is_err());
}

#[test]
fn test_parse_invalid_syntax_error() {
    let source = "invalid syntax here";
    let result = parse_program(source);
    assert!(result.is_err());
}

#[test]
fn test_parse_flat_associativity() {
    // one uniform precedence level: a + b * c groups as (a + b) * c
    let source = "rrr r = 1 + 2 * 3;";
    let statements = parse_program(source).unwrap();
    if let Statement::Const(_, Expression::BinaryOp(left, op, right)) = &statements[0] {
        assert_eq!(op, "*");
        if let Expression::BinaryOp(il, iop, ir) = &**left {
            assert_eq!(iop, "+");
            assert_eq!(**il, Expression::Number(1));
            assert_eq!(**ir, Expression::Number(2));
        } else {
            panic!("Expected nested binary operation on the left");
        }
        assert_eq!(**right, Expression::Number(3));
    } else {
        panic!("Expected const of a binary operation");
    }
}

#[test]
fn test_parse_whitespace_only_fails() {
    assert!(parse_program("   \n\t  ").is_err());
}

#[test]
fn test_parse_error_positions() {
    // the failure points at the second line, where the bad token stands
    let err = parse_program("rrr x = 1;\n???\n").unwrap_err();
    assert_eq!(err.line, 2);
    assert_eq!(err.column, 1);
    assert_eq!(err.source_line, "???");
    assert!(err.suggestion.is_some());
}

#[test]
fn test_parse_unterminated_string_fails() {
    assert!(parse_program("bahubali(\"oops);").is_err());
}

#[test]
fn test_parse_number_overflow_fails() {
    assert!(parse_program("rrr x = 99999999999;").is_err());
    assert!(parse_program("rrr x = 2147483647;").is_ok());
}

#[test]
fn test_parse_missing_for_clause_fails() {
    assert!(parse_program("eega(rrr i = 0; i < 3) { bahubali(i); }").is_err());
    assert!(parse_program("eega(rrr i = 0) { bahubali(i); }").is_err());
    assert!(parse_program("eega() { bahubali(1); }").is_err());
}

#[test]
fn test_parse_unclosed_brace_fails() {
    assert!(parse_program("magadheera(1 > 0) { bahubali(1);").is_err());
}

#[test]
fn test_format_parse_error_rendering() {
    let info = ParseErrorInfo {
        message: "Syntax error".to_string(),
        line: 2,
        column: 3,
        source_line: "abcdef".to_string(),
        suggestion: Some("Check your syntax and make sure all statements end with semicolons".to_string()),
    };
    let rendered = format_parse_error(&info);
    assert!(rendered.contains("Parse Error at line 2, column 3"));
    assert!(rendered.contains("\n   abcdef\n"));
    assert!(rendered.contains("\n     ^\n"));
    assert!(rendered.contains("Suggestion:"));
}

#[test]
fn test_generate_generic_suggestion_cases() {
    let s = generate_generic_suggestion("   ").unwrap();
    assert!(s.contains("Add a valid TFI statement"));
    let s = generate_generic_suggestion("x = 5;").unwrap();
    assert!(s.contains("'rrr' (const) or 'pushpa' (let)"));
    let s = generate_generic_suggestion("bahubali x;").unwrap();
    assert!(s.contains("bahubali statements need parentheses"));
    let s = generate_generic_suggestion("rrr x = 5").unwrap();
    assert!(s.contains("semicolons"));
}
