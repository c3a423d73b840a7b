use tfi_lang::ast::Expression;
use tfi_lang::ast::Statement;
use tfi_lang::generator::generate_expression;
use tfi_lang::generator::generate_formatted_statement;
use tfi_lang::generator::generate_program;
use tfi_lang::generator::generate_statement;

#[test]
fn test_generate_number_expression() {
    let expr = Expression::Number(42);
    assert_eq!(generate_expression(&expr), "42");
}

#[test]
fn test_generate_identifier_expression() {
    let expr = Expression::Identifier("x".to_string());
    assert_eq!(generate_expression(&expr), "x");
}

#[test]
fn test_generate_string_expression() {
    let expr = Expression::String("hello".to_string());
    assert_eq!(generate_expression(&expr), "\"hello\"");
}

#[test]
fn test_generate_binary_expression() {
    let expr = Expression::BinaryOp(
        Box::new(Expression::Number(5)),
        "+".to_string(),
        Box::new(Expression::Number(3)),
    );
    assert_eq!(generate_expression(&expr), "(5 + 3)");
}

#[test]
fn test_generate_complex_binary_expression() {
    let expr = Expression::BinaryOp(
        Box::new(Expression::BinaryOp(
            Box::new(Expression::Number(1)),
            "+".to_string(),
            Box::new(Expression::Number(2)),
        )),
        "*".to_string(),
        Box::new(Expression::Number(3)),
    );
    assert_eq!(generate_expression(&expr), "((1 + 2) * 3)");
}

#[test]
fn test_generate_print_statement() {
    let stmt = Statement::Print(vec![
        Expression::String("Hello".to_string()),
        Expression::Number(42),
    ]);
    assert_eq!(generate_statement(&stmt), "console.log(\"Hello\", 42);");
}

#[test]
fn test_generate_const_statement() {
    let stmt = Statement::Const("x".to_string(), Expression::Number(10));
    assert_eq!(generate_statement(&stmt), "const x = 10;");
}

#[test]
fn test_generate_let_statement() {
    let stmt = Statement::Let("y".to_string(), Expression::String("hello".to_string()));
    assert_eq!(generate_statement(&stmt), "let y = \"hello\";");
}

#[test]
fn test_generate_if_statement() {
    let stmt = Statement::If(
        Expression::BinaryOp(
            Box::new(Expression::Identifier("x".to_string())),
            ">".to_string(),
            Box::new(Expression::Number(0)),
        ),
        vec![Statement::Print(vec![Expression::String("positive".to_string())])],
        None,
    );

    let expected = "if ((x > 0)) {\nconsole.log(\"positive\");\n}";
    assert_eq!(generate_statement(&stmt), expected);
}

#[test]
fn test_generate_if_else_statement() {
    let stmt = Statement::If(
        Expression::BinaryOp(
            Box::new(Expression::Identifier("x".to_string())),
            ">".to_string(),
            Box::new(Expression::Number(0)),
        ),
        vec![Statement::Print(vec![Expression::String("positive".to_string())])],
        Some(vec![Statement::Print(vec![Expression::String("negative".to_string())])]),
    );

    let expected = "if ((x > 0)) {\nconsole.log(\"positive\");\n} else {\nconsole.log(\"negative\");\n}";
    assert_eq!(generate_statement(&stmt), expected);
}

#[test]
fn test_generate_while_statement() {
    let stmt = Statement::While(
        Expression::BinaryOp(
            Box::new(Expression::Identifier("i".to_string())),
            "<".to_string(),
            Box::new(Expression::Number(10)),
        ),
        vec![
            Statement::Print(vec![Expression::Identifier("i".to_string())]),
            Statement::Let(
                "i".to_string(),
                Expression::BinaryOp(
                    Box::new(Expression::Identifier("i".to_string())),
                    "+".to_string(),
                    Box::new(Expression::Number(1)),
                ),
            ),
        ],
    );

    let expected = "while ((i < 10)) {\nconsole.log(i);\nlet i = (i + 1);\n}";
    assert_eq!(generate_statement(&stmt), expected);
}

#[test]
fn test_generate_for_statement() {
    let stmt = Statement::For(
        Box::new(Statement::Let("i".to_string(), Expression::Number(0))),
        Expression::BinaryOp(
            Box::new(Expression::Identifier("i".to_string())),
            "<".to_string(),
            Box::new(Expression::Number(5)),
        ),
        Expression::BinaryOp(
            Box::new(Expression::Identifier("i".to_string())),
            "+".to_string(),
            Box::new(Expression::Number(1)),
        ),
        vec![Statement::Print(vec![Expression::Identifier("i".to_string())])],
    );

    let expected = "for (let i = 0; (i < 5); (i + 1)) {\nconsole.log(i);\n}";
    assert_eq!(generate_statement(&stmt), expected);
}

#[test]
fn test_generate_program() {
    let statements = vec![
        Statement::Const("x".to_string(), Expression::Number(10)),
        Statement::Let("y".to_string(), Expression::Number(5)),
        Statement::Print(vec![
            Expression::String("sum".to_string()),
            Expression::BinaryOp(
                Box::new(Expression::Identifier("x".to_string())),
                "+".to_string(),
                Box::new(Expression::Identifier("y".to_string())),
            ),
        ]),
    ];

    let expected = "const x = 10;\nlet y = 5;\nconsole.log(\"sum\", (x + y));";
    assert_eq!(generate_program(&statements), expected);
}

#[test]
fn test_generate_formatted_statement() {
    let stmt = Statement::If(
        Expression::Number(1),
        vec![Statement::Print(vec![Expression::String("true".to_string())])],
        None,
    );

    let expected = "    if (1) {\n    console.log(\"true\");\n    }";
    assert_eq!(generate_formatted_statement(&stmt, 1), expected);
}

#[test]
fn test_generate_negative_number() {
    let expr = Expression::Number(-5);
    assert_eq!(generate_expression(&expr), "-5");
    assert_eq!(generate_expression(&Expression::Number(i32::MIN)), "-2147483648");
}

#[test]
fn test_generate_formatted_program_matches_plain() {
    let statements = vec![
        Statement::Const("x".to_string(), Expression::Number(1)),
        Statement::Print(vec![Expression::Identifier("x".to_string())]),
    ];
    assert_eq!(
        tfi_lang::generator::generate_formatted_program(&statements),
        generate_program(&statements)
    );
}
