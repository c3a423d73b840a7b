use tfi_lang::compiler::add_source_comments;
use tfi_lang::compiler::compile;
use tfi_lang::compiler::compile_with_details;
use tfi_lang::compiler::compile_with_options;
use tfi_lang::compiler::format_js_code;
use tfi_lang::compiler::get_compilation_stats;
use tfi_lang::compiler::CompilationOptions;
use tfi_lang::compiler::CompilationStats;

#[test]
fn compiler_test_basic_compilation() {
    let source = r#"
            bahubali("Hello, world!");
            rrr x = 10;
            pushpa y = 5;
            bahubali("The value of x is", x);
            bahubali(x + y);
        "#;

    let result = compile(source);
    assert!(result.is_ok());

    let js_code = result.unwrap();
    assert!(js_code.contains("console.log"));
    assert!(js_code.contains("const x = 10"));
    assert!(js_code.contains("let y = 5"));
}

#[test]
fn test_compilation_with_details() {
    let source = r#"
            bahubali("Hello");
            rrr x = 42;
        "#;

    let result = compile_with_details(source);
    assert!(result.is_ok());

    let details = result.unwrap();
    assert_eq!(details.statement_count, 2);
    assert!(!details.has_warnings());
    assert!(details.js_code.contains("console.log"));
}

#[test]
fn compiler_test_compilation_with_options() {
    let source = "bahubali(\"Hello\");";

    let options = CompilationOptions::new().with_formatting().with_comments();

    let result = compile_with_options(source, &options);
    assert!(result.is_ok());

    let details = result.unwrap();
    assert!(details.js_code.contains("// Generated from TFI"));
    assert!(details.js_code.contains("console.log"));
}

#[test]
fn test_compilation_stats() {
    let source = r#"
            bahubali("Hello");
            rrr x = 10;
            pushpa y = 5;
            magadheera(x > 5) {
                bahubali("x is greater than 5");
            }
            pokiri(y < 10) {
                bahubali(y);
                pushpa y = y + 1;
            }
        "#;

    let stats = get_compilation_stats(source);
    if let Err(e) = &stats {
        println!("Compilation stats error: {}", e.message);
    }
    assert!(stats.is_ok());

    let stats = stats.unwrap();
    println!("Stats: {:?}", stats);
    assert_eq!(stats.total_statements, 5);
    assert_eq!(stats.print_statements, 3);
    assert_eq!(stats.const_declarations, 1);
    assert_eq!(stats.let_declarations, 2);
    assert_eq!(stats.if_statements, 1);
    assert_eq!(stats.while_loops, 1);
    assert_eq!(stats.for_loops, 0);
}

#[test]
fn test_compilation_error_handling() {
    let source = "invalid syntax here";
    let result = compile(source);
    assert!(result.is_err());

    if let Err(e) = result {
        let error_msg = e.message();
        assert!(error_msg.contains("Failed to parse TFI code"));
    } else {
        panic!("Expected compilation error");
    }
}

#[test]
fn test_compilation_options_builder() {
    let options = CompilationOptions::new().with_formatting().with_comments().with_strict_mode();

    assert!(options.format_output);
    assert!(options.add_comments);
    assert!(options.strict_mode);
    assert!(!options.minify);
}

#[test]
fn test_compilation_stats_methods() {
    let mut stats = CompilationStats::default();
    stats.total_statements = 10;
    stats.print_statements = 3;
    stats.const_declarations = 2;
    stats.let_declarations = 1;
    stats.if_statements = 2;
    stats.while_loops = 1;
    stats.for_loops = 1;

    assert_eq!(stats.total_declarations(), 3);
    assert_eq!(stats.total_control_structures(), 4);

    let summary = stats.summary();
    assert!(summary.contains("Total statements: 10"));
    assert!(summary.contains("Print statements: 3"));
    assert!(summary.contains("Variable declarations: 3"));
    assert!(summary.contains("Control structures: 4"));
}

#[test]
fn test_format_js_code() {
    let js_code = "if (x > 0) {\nconsole.log(x);\n}";
    let formatted = format_js_code(js_code);

    assert!(formatted.contains("if (x > 0) {"));
    assert!(formatted.contains("console.log(x);"));
    assert!(formatted.contains("}"));
}

#[test]
fn test_add_source_comments() {
    let js_code = "console.log('hello');";
    let source = "bahubali(\"hello\");";
    let commented = add_source_comments(js_code, source);

    assert!(commented.contains("// Generated from TFI source code"));
    assert!(commented.contains("// 1: bahubali(\"hello\");"));
    assert!(commented.contains("console.log('hello');"));
}

#[test]
fn test_format_js_code_indents_by_nesting() {
    let js_code = "if (x) {\nconsole.log(x);\n}";
    let formatted = format_js_code(js_code);
    assert_eq!(formatted, "if (x) {\n    console.log(x);\n}\n");
}

#[test]
fn test_print_warning_over_five_arguments() {
    let source = "bahubali(1, 2, 3, 4, 5, 6);";
    let details = compile_with_details(source).unwrap();
    assert!(details.has_warnings());
    assert_eq!(details.warning_count(), 1);
    assert_eq!(
        details.warnings[0],
        "Statement 1: Print statement has 6 arguments, consider breaking it up"
    );
}

#[test]
fn test_summary_exact_text() {
    let mut stats = CompilationStats::default();
    stats.total_statements = 2;
    stats.print_statements = 1;
    stats.const_declarations = 1;
    let summary = stats.summary();
    assert_eq!(
        summary,
        "Compilation Summary:\n- Total statements: 2\n- Print statements: 1\n- Variable declarations: 1\n- Control structures: 0"
    );
}
