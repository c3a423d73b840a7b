use tfi_lang::ast::Expression;
use tfi_lang::ast::Statement;

#[test]
fn test_statement_types() {
    let print_stmt = Statement::Print(vec![Expression::Number(42)]);
    assert_eq!(print_stmt.statement_type(), "Print");

    let const_stmt = Statement::Const("x".to_string(), Expression::Number(10));
    assert_eq!(const_stmt.statement_type(), "Const");

    let if_stmt = Statement::If(
        Expression::Number(1),
        vec![Statement::Print(vec![Expression::String("hello".to_string())])],
        None,
    );
    assert_eq!(if_stmt.statement_type(), "If");
}

#[test]
fn test_expression_types() {
    let num_expr = Expression::Number(42);
    assert_eq!(num_expr.expression_type(), "Number");

    let id_expr = Expression::Identifier("x".to_string());
    assert_eq!(id_expr.expression_type(), "Identifier");

    let str_expr = Expression::String("hello".to_string());
    assert_eq!(str_expr.expression_type(), "String");

    let bin_expr = Expression::BinaryOp(
        Box::new(Expression::Number(1)),
        "+".to_string(),
        Box::new(Expression::Number(2)),
    );
    assert_eq!(bin_expr.expression_type(), "BinaryOp");
}

#[test]
fn test_expression_equality() {
    let expr1 = Expression::Number(42);
    let expr2 = Expression::Number(42);
    let expr3 = Expression::Number(43);

    assert_eq!(expr1, expr2);
    assert_ne!(expr1, expr3);
}

#[test]
fn test_statement_equality() {
    let stmt1 = Statement::Print(vec![Expression::Number(42)]);
    let stmt2 = Statement::Print(vec![Expression::Number(42)]);
    let stmt3 = Statement::Print(vec![Expression::Number(43)]);

    assert_eq!(stmt1, stmt2);
    assert_ne!(stmt1, stmt3);
}
