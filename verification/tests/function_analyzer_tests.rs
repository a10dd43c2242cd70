use fnloc::ast::{BinOp, Block, Expr, FnDef, SourceUnit, Stmt};
use fnloc::function_analyzer::{
    analyze_all_files, analyze_function_lines, count_function_lines, FunctionAnalysisResult,
    SourceFile,
};
use fnloc::function_extractor::FunctionSpan;

fn span_of(name: &str, lines: &[&str]) -> FunctionSpan {
    FunctionSpan {
        name: name.to_string(),
        lines: lines.iter().map(|s| s.to_string()).collect(),
    }
}

fn unit_of(name: &str, stmts: Vec<Stmt>) -> SourceUnit {
    SourceUnit {
        functions: vec![FnDef {
            name: name.to_string(),
            body: Block { stmts },
        }],
    }
}

fn empty_unit() -> SourceUnit {
    SourceUnit { functions: vec![] }
}

/// A comparison such as `x > 0`: a non-logical binary operation over leaves.
fn cmp() -> Expr {
    Expr::Binary {
        op: BinOp::Other,
        left: Box::new(Expr::Leaf),
        right: Box::new(Expr::Leaf),
    }
}

fn if_then(cond: Expr, stmts: Vec<Stmt>) -> Expr {
    Expr::If {
        cond: Box::new(cond),
        then_branch: Block { stmts },
        else_branch: None,
    }
}

#[test]
fn test_analyze_function_lines_basic() {
    let span = span_of(
        "hello",
        &[
            "fn hello() {",
            "    println!(\"Hello\");",
            "    // This is a comment",
            "",
            "}",
        ],
    );
    // fn hello() {\n    println!("Hello");\n    // This is a comment\n\n}
    let unit = unit_of("hello", vec![Stmt::MacroCall]);
    let result = analyze_function_lines(&span, &unit);

    assert_eq!(result.name, "hello");
    assert_eq!(result.total, 5);
    assert_eq!(result.code, 3);
    assert_eq!(result.comment, 1);
    assert_eq!(result.empty, 1);
    assert_eq!(result.cyclomatic_complexity, 1);
    assert_eq!(result.nesting_depth, 0);
}

#[test]
fn test_analyze_function_lines_only_code() {
    let span = span_of("add", &["fn add(a: i32, b: i32) -> i32 {", "    a + b", "}"]);
    // fn add(a: i32, b: i32) -> i32 {\n    a + b\n}
    let unit = unit_of("add", vec![Stmt::Expr(cmp())]);
    let result = analyze_function_lines(&span, &unit);

    assert_eq!(result.name, "add");
    assert_eq!(result.total, 3);
    assert_eq!(result.code, 3);
    assert_eq!(result.comment, 0);
    assert_eq!(result.empty, 0);
    assert_eq!(result.cyclomatic_complexity, 1);
    assert_eq!(result.nesting_depth, 0);
}

#[test]
fn test_analyze_function_lines_only_comments() {
    let span = span_of(
        "documented_function",
        &[
            "// Function documentation",
            "/* Multi-line comment",
            "   continues here */",
            "// Another comment",
        ],
    );
    // fn documented_function() {}
    let unit = unit_of("documented_function", vec![]);
    let result = analyze_function_lines(&span, &unit);

    assert_eq!(result.name, "documented_function");
    assert_eq!(result.total, 4);
    assert_eq!(result.code, 1);
    assert_eq!(result.comment, 3);
    assert_eq!(result.empty, 0);
    assert_eq!(result.cyclomatic_complexity, 1);
    assert_eq!(result.nesting_depth, 0);
}

#[test]
fn test_analyze_function_lines_empty_function() {
    let span = span_of("empty_function", &["fn empty_function() {", "", "", "}"]);
    // fn empty_function() {\n\n\n}
    let unit = unit_of("empty_function", vec![]);
    let result = analyze_function_lines(&span, &unit);

    assert_eq!(result.name, "empty_function");
    assert_eq!(result.total, 4);
    assert_eq!(result.code, 2);
    assert_eq!(result.comment, 0);
    assert_eq!(result.empty, 2);
    assert_eq!(result.cyclomatic_complexity, 1);
}

#[test]
fn test_analyze_function_lines_mixed_content() {
    let span = span_of(
        "complex_function",
        &[
            "fn complex_function() {",
            "    // Initialize variables",
            "    let x = 10;",
            "",
            "    /* Calculate result",
            "       using complex logic */",
            "    let result = x * 2;",
            "",
            "    // Return the result",
            "    result",
            "}",
        ],
    );
    let unit = unit_of(
        "complex_function",
        vec![
            Stmt::Local(Some(Expr::Leaf)),
            Stmt::Local(Some(cmp())),
            Stmt::Expr(Expr::Leaf),
        ],
    );
    let result = analyze_function_lines(&span, &unit);

    assert_eq!(result.name, "complex_function");
    assert_eq!(result.total, 11);
    assert_eq!(result.code, 6);
    assert_eq!(result.comment, 3);
    assert_eq!(result.empty, 2);
    assert_eq!(result.cyclomatic_complexity, 1);
}

#[test]
fn test_analyze_all_files_single_file() {
    let file_paths = vec!["test_file.rs".to_string()];
    assert_eq!(file_paths.len(), 1);
}

#[test]
fn test_analyze_all_files_empty_list() {
    let files: Vec<SourceFile> = vec![];
    let results = analyze_all_files(&files);
    assert!(results.is_empty());
}

#[test]
fn test_function_analysis_result_creation() {
    let result = FunctionAnalysisResult {
        name: "test_function".to_string(),
        total: 10,
        code: 7,
        comment: 2,
        empty: 1,
        cyclomatic_complexity: 3,
        nesting_depth: 2,
    };

    assert_eq!(result.name, "test_function");
    assert_eq!(result.total, 10);
    assert_eq!(result.code, 7);
    assert_eq!(result.comment, 2);
    assert_eq!(result.empty, 1);
    assert_eq!(result.cyclomatic_complexity, 3);
    assert_eq!(result.nesting_depth, 2);
    assert_eq!(result.total, result.code + result.comment + result.empty);
}

#[test]
fn test_function_analysis_result_clone() {
    let original = FunctionAnalysisResult {
        name: "original".to_string(),
        total: 5,
        code: 3,
        comment: 1,
        empty: 1,
        cyclomatic_complexity: 2,
        nesting_depth: 1,
    };

    let cloned = original.clone();

    assert_eq!(original.name, cloned.name);
    assert_eq!(original.total, cloned.total);
    assert_eq!(original.code, cloned.code);
    assert_eq!(original.comment, cloned.comment);
    assert_eq!(original.empty, cloned.empty);
    assert_eq!(original.cyclomatic_complexity, cloned.cyclomatic_complexity);
    assert_eq!(original.nesting_depth, cloned.nesting_depth);
}

#[test]
fn test_analyze_all_files_with_file_paths() {
    let file_paths = vec!["src/test1.rs".to_string(), "src/test2.rs".to_string()];

    let empty_files: Vec<SourceFile> = vec![];
    let results = analyze_all_files(&empty_files);
    assert!(results.is_empty());

    assert_eq!(file_paths.len(), 2);
    assert_eq!(file_paths[0], "src/test1.rs");
    assert_eq!(file_paths[1], "src/test2.rs");
}

#[test]
fn test_line_classification_edge_cases() {
    let span = span_of(
        "edge_case_function",
        &[
            "    // Comment with leading spaces",
            "\t/* Comment with tab */",
            "  ",
            "\t\t",
            "code_line();  // Inline comment",
            "/*",
        ],
    );
    // The matching source text has an unterminated block comment, so no
    // parsed function is available and the metrics fall back to defaults.
    let unit = empty_unit();
    let result = analyze_function_lines(&span, &unit);

    assert_eq!(result.name, "edge_case_function");
    assert_eq!(result.total, 6);
    assert_eq!(result.code, 1);
    assert_eq!(result.comment, 3);
    assert_eq!(result.empty, 2);
    assert_eq!(result.cyclomatic_complexity, 1);
}

#[test]
fn test_analyze_function_lines_zero_lines() {
    let span = span_of("zero_lines", &[]);
    // fn zero_lines() {}
    let unit = unit_of("zero_lines", vec![]);
    let result = analyze_function_lines(&span, &unit);

    assert_eq!(result.name, "zero_lines");
    assert_eq!(result.total, 0);
    assert_eq!(result.code, 0);
    assert_eq!(result.comment, 0);
    assert_eq!(result.empty, 0);
    assert_eq!(result.cyclomatic_complexity, 1);
}

#[test]
fn test_cyclomatic_complexity_simple_function() {
    let span = span_of("simple", &["fn simple() {", "    println!(\"Hello\");", "}"]);
    let unit = unit_of("simple", vec![Stmt::MacroCall]);
    let result = analyze_function_lines(&span, &unit);

    assert_eq!(result.cyclomatic_complexity, 1);
}

#[test]
fn test_cyclomatic_complexity_with_if() {
    let span = span_of(
        "with_if",
        &[
            "fn with_if(x: i32) {",
            "    if x > 0 {",
            "        println!(\"positive\");",
            "    }",
            "}",
        ],
    );
    let unit = unit_of("with_if", vec![Stmt::Expr(if_then(cmp(), vec![Stmt::MacroCall]))]);
    let result = analyze_function_lines(&span, &unit);

    assert_eq!(result.cyclomatic_complexity, 2);
}

#[test]
fn test_cyclomatic_complexity_with_match() {
    let span = span_of(
        "with_match",
        &[
            "fn with_match(x: Option<i32>) {",
            "    match x {",
            "        Some(val) => println!(\"{}\", val),",
            "        None => println!(\"nothing\"),",
            "    }",
            "}",
        ],
    );
    let unit = unit_of(
        "with_match",
        vec![Stmt::Expr(Expr::Match {
            scrutinee: Box::new(Expr::Leaf),
            arms: vec![
                fnloc::ast::MatchArm { guard: None, body: Expr::Leaf },
                fnloc::ast::MatchArm { guard: None, body: Expr::Leaf },
            ],
        })],
    );
    let result = analyze_function_lines(&span, &unit);

    assert_eq!(result.cyclomatic_complexity, 4);
}

#[test]
fn test_cyclomatic_complexity_with_loops() {
    let span = span_of(
        "with_loops",
        &[
            "fn with_loops() {",
            "    while true {",
            "        break;",
            "    }",
            "    for i in 0..10 {",
            "        continue;",
            "    }",
            "}",
        ],
    );
    let unit = unit_of(
        "with_loops",
        vec![
            Stmt::Expr(Expr::While {
                cond: Box::new(Expr::Leaf),
                body: Block { stmts: vec![Stmt::Expr(Expr::Break { value: None })] },
            }),
            Stmt::Expr(Expr::ForLoop {
                iter: Box::new(Expr::Range {
                    start: Some(Box::new(Expr::Leaf)),
                    end: Some(Box::new(Expr::Leaf)),
                }),
                body: Block { stmts: vec![Stmt::Expr(Expr::Continue)] },
            }),
        ],
    );
    let result = analyze_function_lines(&span, &unit);

    // Base 1 + while 1 + break 1 + for 1 + continue 1
    assert_eq!(result.cyclomatic_complexity, 5);
}

#[test]
fn test_cyclomatic_complexity_with_logical_operators() {
    let span = span_of(
        "with_logical",
        &[
            "fn with_logical(a: bool, b: bool, c: bool) {",
            "    if a && b || c {",
            "        println!(\"complex condition\");",
            "    }",
            "}",
        ],
    );
    let cond = Expr::Binary {
        op: BinOp::Or,
        left: Box::new(Expr::Binary {
            op: BinOp::And,
            left: Box::new(Expr::Leaf),
            right: Box::new(Expr::Leaf),
        }),
        right: Box::new(Expr::Leaf),
    };
    let unit = unit_of("with_logical", vec![Stmt::Expr(if_then(cond, vec![Stmt::MacroCall]))]);
    let result = analyze_function_lines(&span, &unit);

    // Base 1 + if 1 + && 1 + || 1
    assert_eq!(result.cyclomatic_complexity, 4);
}

#[test]
fn test_count_function_lines_basic() {
    let span = span_of(
        "test",
        &["fn test() {", "    let x = 1;", "    // comment", "", "}"],
    );

    let (total, code, comment, empty) = count_function_lines(&span);

    assert_eq!(total, 5);
    assert_eq!(code, 3);
    assert_eq!(comment, 1);
    assert_eq!(empty, 1);
}

#[test]
fn function_analyzer_test_analyze_function_lines_basic() {
    test_analyze_function_lines_basic();
}

#[test]
fn function_analyzer_test_analyze_function_lines_only_code() {
    test_analyze_function_lines_only_code();
}

#[test]
fn function_analyzer_test_analyze_function_lines_only_comments() {
    test_analyze_function_lines_only_comments();
}

#[test]
fn function_analyzer_test_analyze_function_lines_empty_function() {
    test_analyze_function_lines_empty_function();
}

#[test]
fn function_analyzer_test_analyze_function_lines_mixed_content() {
    test_analyze_function_lines_mixed_content();
}

#[test]
fn function_analyzer_test_analyze_all_files_single_file() {
    test_analyze_all_files_single_file();
}

#[test]
fn function_analyzer_test_analyze_all_files_empty_list() {
    test_analyze_all_files_empty_list();
}

#[test]
fn function_analyzer_test_function_analysis_result_creation() {
    test_function_analysis_result_creation();
}

#[test]
fn function_analyzer_test_function_analysis_result_clone() {
    test_function_analysis_result_clone();
}

#[test]
fn function_analyzer_test_analyze_all_files_with_file_paths() {
    test_analyze_all_files_with_file_paths();
}

#[test]
fn function_analyzer_test_line_classification_edge_cases() {
    test_line_classification_edge_cases();
}

#[test]
fn function_analyzer_test_analyze_function_lines_zero_lines() {
    test_analyze_function_lines_zero_lines();
}

#[test]
fn function_analyzer_test_cyclomatic_complexity_simple_function() {
    test_cyclomatic_complexity_simple_function();
}

#[test]
fn function_analyzer_test_cyclomatic_complexity_with_if() {
    test_cyclomatic_complexity_with_if();
}

#[test]
fn function_analyzer_test_cyclomatic_complexity_with_match() {
    test_cyclomatic_complexity_with_match();
}

#[test]
fn function_analyzer_test_cyclomatic_complexity_with_loops() {
    test_cyclomatic_complexity_with_loops();
}

#[test]
fn function_analyzer_test_cyclomatic_complexity_with_logical_operators() {
    test_cyclomatic_complexity_with_logical_operators();
}
