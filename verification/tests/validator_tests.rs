use tfi_lang::ast::Expression;
use tfi_lang::ast::Statement;
use tfi_lang::validator::validate_expression;
use tfi_lang::validator::validate_program;
use tfi_lang::validator::validate_program_detailed;
use tfi_lang::validator::validate_statement;
use tfi_lang::validator::DeclarationType;
use tfi_lang::validator::ValidationContext;
use tfi_lang::validator::ValidationError;

#[test]
fn test_validate_empty_print_error() {
    let stmt = Statement::Print(vec![]);
    let mut context = ValidationContext::new();
    let result = validate_statement(&stmt, 1, &mut context);
    assert!(result.is_err());

    if let Err(ValidationError::EmptyPrintStatement(line)) = result {
        assert_eq!(line, 1);
    } else {
        panic!("Expected EmptyPrintStatement error");
    }
}

#[test]
fn test_validate_empty_identifier_error() {
    let stmt = Statement::Const("".to_string(), Expression::Number(42));
    let mut context = ValidationContext::new();
    let result = validate_statement(&stmt, 1, &mut context);
    assert!(result.is_err());

    if let Err(ValidationError::EmptyIdentifier(line, stmt_type)) = result {
        assert_eq!(line, 1);
        assert_eq!(stmt_type, "rrr");
    } else {
        panic!("Expected EmptyIdentifier error");
    }
}

#[test]
fn test_validate_empty_if_block_error() {
    let stmt = Statement::If(Expression::Number(1), vec![], None);
    let mut context = ValidationContext::new();
    let result = validate_statement(&stmt, 1, &mut context);
    assert!(result.is_err());

    if let Err(ValidationError::EmptyBlock(line, stmt_type)) = result {
        assert_eq!(line, 1);
        assert_eq!(stmt_type, "magadheera");
    } else {
        panic!("Expected EmptyBlock error");
    }
}

#[test]
fn test_validate_duplicate_variable_error() {
    let statements = vec![
        Statement::Let("x".to_string(), Expression::Number(1)),
        Statement::Const("x".to_string(), Expression::Number(2)),
    ];
    let result = validate_program(&statements);
    assert!(result.is_err());
}

#[test]
fn test_validate_undefined_variable_error() {
    let stmt = Statement::Print(vec![Expression::Identifier("undefined_var".to_string())]);
    let mut context = ValidationContext::new();
    let result = validate_statement(&stmt, 1, &mut context);
    assert!(result.is_err());

    if let Err(ValidationError::UndefinedVariable(name, line)) = result {
        assert_eq!(name, "undefined_var");
        assert_eq!(line, 1);
    } else {
        panic!("Expected UndefinedVariable error");
    }
}

#[test]
fn test_validate_valid_program() {
    let statements = vec![
        Statement::Const("x".to_string(), Expression::Number(10)),
        Statement::Let("y".to_string(), Expression::Number(5)),
        Statement::Print(vec![
            Expression::String("sum".to_string()),
            Expression::BinaryOp(
                Box::new(Expression::Identifier("x".to_string())),
                "+".to_string(),
                Box::new(Expression::Identifier("y".to_string())),
            ),
        ]),
    ];

    let result = validate_program(&statements);
    assert!(result.is_ok());
}

#[test]
fn test_validate_context_methods() {
    let mut context = ValidationContext::new();

    // declaring a fresh name succeeds
    assert!(context.declare_variable("x", 1, DeclarationType::Const).is_ok());
    assert!(context.is_variable_declared("x"));
    assert!(!context.is_variable_declared("y"));

    // a second const binding of the same name is a duplicate
    let result = context.declare_variable("x", 2, DeclarationType::Const);
    assert!(result.is_err());

    if let Err(ValidationError::DuplicateVariable(name, line)) = result {
        assert_eq!(name, "x");
        assert_eq!(line, 1);
    } else {
        panic!("Expected DuplicateVariable error");
    }
}

#[test]
fn test_validate_expression() {
    let mut context = ValidationContext::new();
    context.declare_variable("x", 1, DeclarationType::Const).unwrap();

    // a declared identifier combined with a literal is valid
    let valid_expr = Expression::BinaryOp(
        Box::new(Expression::Identifier("x".to_string())),
        "+".to_string(),
        Box::new(Expression::Number(5)),
    );
    assert!(validate_expression(&valid_expr, 1, &context).is_ok());

    // multiplication is in the accepted operator set
    let valid_expr = Expression::BinaryOp(
        Box::new(Expression::Number(1)),
        "*".to_string(),
        Box::new(Expression::Number(2)),
    );
    assert!(validate_expression(&valid_expr, 1, &context).is_ok());

    // an operator outside the fixed set is rejected
    let invalid_expr = Expression::BinaryOp(
        Box::new(Expression::Number(1)),
        "&".to_string(),
        Box::new(Expression::Number(2)),
    );
    let result = validate_expression(&invalid_expr, 1, &context);
    assert!(result.is_err());

    if let Err(ValidationError::InvalidExpression(_, msg)) = result {
        assert!(msg.contains("Unknown operator"));
    } else {
        panic!("Expected InvalidExpression error");
    }
}

#[test]
fn test_validate_detailed() {
    let statements = vec![
        Statement::Print(vec![]),
        Statement::Const("x".to_string(), Expression::Number(1)),
        Statement::Const("x".to_string(), Expression::Number(2)),
        Statement::Print(vec![Expression::Identifier("undefined".to_string())]),
    ];

    let result = validate_program_detailed(&statements);
    assert!(result.is_err());

    if let Err(errors) = result {
        assert_eq!(errors.len(), 3);

        let error_types: Vec<&str> = errors
            .iter()
            .map(|e| match e {
                ValidationError::EmptyPrintStatement(_) => "EmptyPrintStatement",
                ValidationError::DuplicateVariable(_, _) => "DuplicateVariable",
                ValidationError::UndefinedVariable(_, _) => "UndefinedVariable",
                _ => "Other",
            })
            .collect();

        assert!(error_types.contains(&"EmptyPrintStatement"));
        assert!(error_types.contains(&"DuplicateVariable"));
        assert!(error_types.contains(&"UndefinedVariable"));
    } else {
        panic!("Expected error list");
    }
}

#[test]
fn test_shadow_widening_const_to_let() {
    // const then let on one name is accepted; let then const is not
    let widening = vec![
        Statement::Const("x".to_string(), Expression::Number(1)),
        Statement::Let("x".to_string(), Expression::Number(2)),
    ];
    assert!(validate_program(&widening).is_ok());

    let narrowing = vec![
        Statement::Let("y".to_string(), Expression::Number(1)),
        Statement::Const("y".to_string(), Expression::Number(2)),
    ];
    assert!(validate_program(&narrowing).is_err());

    let duplicate = vec![
        Statement::Const("z".to_string(), Expression::Number(1)),
        Statement::Const("z".to_string(), Expression::Number(2)),
    ];
    match validate_program(&duplicate) {
        Err(ValidationError::DuplicateVariable(name, line)) => {
            assert_eq!(name, "z");
            assert_eq!(line, 1);
        },
        _ => panic!("Expected DuplicateVariable error"),
    }
}

#[test]
fn test_sibling_blocks_do_not_share_declarations() {
    // a name declared only inside the then-block is invisible to the
    // else-block and to later statements
    let statements = vec![
        Statement::If(
            Expression::Number(1),
            vec![Statement::Let("inner".to_string(), Expression::Number(1))],
            Some(vec![Statement::Print(vec![Expression::Identifier("inner".to_string())])]),
        ),
    ];
    match validate_program(&statements) {
        Err(ValidationError::UndefinedVariable(name, _)) => assert_eq!(name, "inner"),
        _ => panic!("Expected UndefinedVariable error"),
    }

    let after = vec![
        Statement::If(
            Expression::Number(1),
            vec![Statement::Let("t".to_string(), Expression::Number(1))],
            None,
        ),
        Statement::Print(vec![Expression::Identifier("t".to_string())]),
    ];
    assert!(validate_program(&after).is_err());
}

#[test]
fn test_empty_for_body_fails_validation() {
    let stmt = Statement::For(
        Box::new(Statement::Let("i".to_string(), Expression::Number(0))),
        Expression::BinaryOp(
            Box::new(Expression::Identifier("i".to_string())),
            "<".to_string(),
            Box::new(Expression::Number(3)),
        ),
        Expression::BinaryOp(
            Box::new(Expression::Identifier("i".to_string())),
            "+".to_string(),
            Box::new(Expression::Number(1)),
        ),
        vec![],
    );
    let mut context = ValidationContext::new();
    match validate_statement(&stmt, 1, &mut context) {
        Err(ValidationError::EmptyBlock(line, kind)) => {
            assert_eq!(line, 1);
            assert_eq!(kind, "eega");
        },
        _ => panic!("Expected EmptyBlock error"),
    }
}
