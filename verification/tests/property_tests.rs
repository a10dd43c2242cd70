use fnloc::ast::{BinOp, Block, Expr, FnDef, MatchArm, SourceUnit, Stmt};
use fnloc::cyclomatic_complexity::calculate_cyclomatic_complexity;
use fnloc::errors::AnalysisError;
use fnloc::file_scanner::{filter_rust_files, is_rust_file};
use fnloc::function_analyzer::{
    analyze_all_files, analyze_file_functions, calculate_cyclomatic_complexity_from_source,
    calculate_function_metrics, calculate_nesting_depth_from_source, normalize_path, SourceFile,
};
use fnloc::function_extractor::{extract_function_spans, find_function_bounds, FunctionSpan};
use fnloc::nesting_depth::calculate_nesting_depth;
use fnloc::output_formatter::{usize_to_string, OutputFormatter};
use fnloc::{FunctionAnalysisResult, OutputFormat};

fn func(name: &str, stmts: Vec<Stmt>) -> FnDef {
    FnDef {
        name: name.to_string(),
        body: Block { stmts },
    }
}

fn unit_of(name: &str, stmts: Vec<Stmt>) -> SourceUnit {
    SourceUnit {
        functions: vec![func(name, stmts)],
    }
}

fn cmp() -> Expr {
    Expr::Binary {
        op: BinOp::Other,
        left: Box::new(Expr::Leaf),
        right: Box::new(Expr::Leaf),
    }
}

fn if_then(cond: Expr, stmts: Vec<Stmt>) -> Expr {
    Expr::If {
        cond: Box::new(cond),
        then_branch: Block { stmts },
        else_branch: None,
    }
}

fn strings(lines: &[&str]) -> Vec<String> {
    lines.iter().map(|s| s.to_string()).collect()
}

fn record(name: &str, code: usize) -> FunctionAnalysisResult {
    FunctionAnalysisResult {
        name: name.to_string(),
        total: code,
        code,
        comment: 0,
        empty: 0,
        cyclomatic_complexity: 1,
        nesting_depth: 0,
    }
}

// The lenient by-name lookups.

#[test]
fn test_calculate_cyclomatic_complexity_from_source() {
    // fn with_if(x: i32) { if x > 0 { println!("positive"); } }
    let unit = unit_of("with_if", vec![Stmt::Expr(if_then(cmp(), vec![Stmt::MacroCall]))]);
    let complexity = calculate_cyclomatic_complexity_from_source(&unit, "with_if");
    assert_eq!(complexity, 2);
}

#[test]
fn test_calculate_nesting_depth_from_source() {
    // fn nested() { if true { for i in 0..10 { println!("{}", i); } } }
    let inner = Expr::ForLoop {
        iter: Box::new(Expr::Range {
            start: Some(Box::new(Expr::Leaf)),
            end: Some(Box::new(Expr::Leaf)),
        }),
        body: Block { stmts: vec![Stmt::MacroCall] },
    };
    let unit = unit_of("nested", vec![Stmt::Expr(if_then(Expr::Leaf, vec![Stmt::Expr(inner)]))]);
    let nesting = calculate_nesting_depth_from_source(&unit, "nested");
    assert_eq!(nesting, 2);
}

#[test]
fn test_function_not_found_defaults() {
    // fn other_function() {}
    let unit = unit_of("other_function", vec![]);

    let complexity = calculate_cyclomatic_complexity_from_source(&unit, "nonexistent");
    assert_eq!(complexity, 1);

    let nesting = calculate_nesting_depth_from_source(&unit, "nonexistent");
    assert_eq!(nesting, 0);
}

#[test]
fn lookup_defaults_hold_for_both_metrics_at_once() {
    let unit = unit_of("other_function", vec![]);
    let metrics = calculate_function_metrics(&unit, "nonexistent");
    assert_eq!(metrics, (1, 0));
}

// Straight-line code: complexity 1, nesting 0.

#[test]
fn straight_line_body_measures_one_and_zero() {
    let f = func(
        "straight",
        vec![
            Stmt::Local(Some(Expr::Call {
                callee: Box::new(Expr::Leaf),
                args: vec![Expr::Leaf, cmp()],
            })),
            Stmt::Expr(Expr::MethodCall { receiver: Box::new(Expr::Leaf), args: vec![] }),
            Stmt::MacroCall,
        ],
    );
    assert_eq!(calculate_cyclomatic_complexity(&f), 1);
    assert_eq!(calculate_nesting_depth(&f), 0);
}

// A single if without else: one above base, one level deep.

#[test]
fn single_if_measures_two_and_one() {
    let f = func("one_if", vec![Stmt::Expr(if_then(cmp(), vec![Stmt::MacroCall]))]);
    assert_eq!(calculate_cyclomatic_complexity(&f), 2);
    assert_eq!(calculate_nesting_depth(&f), 1);
}

// An if/else: the else branch adds no decision point of its own.

#[test]
fn if_else_adds_nothing_for_the_else() {
    let f = func(
        "if_else",
        vec![Stmt::Expr(Expr::If {
            cond: Box::new(cmp()),
            then_branch: Block { stmts: vec![Stmt::MacroCall] },
            else_branch: Some(Box::new(Expr::Leaf)),
        })],
    );
    assert_eq!(calculate_cyclomatic_complexity(&f), 2);
    assert_eq!(calculate_nesting_depth(&f), 1);
}

// A match with N arms adds 1 for the match and 1 per arm, guards included.

#[test]
fn match_adds_one_unit_per_arm() {
    let arms = vec![
        MatchArm { guard: Some(cmp()), body: Expr::Leaf },
        MatchArm { guard: None, body: Expr::Leaf },
        MatchArm { guard: None, body: Expr::Leaf },
    ];
    let f = func(
        "three_arms",
        vec![Stmt::Expr(Expr::Match { scrutinee: Box::new(Expr::Leaf), arms })],
    );
    // base 1 + match 1 + 3 arms = 5; the plain guard adds nothing of its own
    assert_eq!(calculate_cyclomatic_complexity(&f), 5);

    let guard = Expr::Binary {
        op: BinOp::And,
        left: Box::new(Expr::Leaf),
        right: Box::new(Expr::Leaf),
    };
    let arms = vec![
        MatchArm { guard: Some(guard), body: Expr::Leaf },
        MatchArm { guard: None, body: Expr::Leaf },
    ];
    let g = func(
        "guarded_arms",
        vec![Stmt::Expr(Expr::Match { scrutinee: Box::new(Expr::Leaf), arms })],
    );
    // base 1 + match 1 + 2 arms + the guard's own short-circuit operator
    assert_eq!(calculate_cyclomatic_complexity(&g), 5);
}

// An else branch that stands as a braced block is itself a nested scope:
// the block boundary adds a second level below the conditional.

#[test]
fn block_wrapped_else_adds_its_own_level() {
    let f = func(
        "block_else",
        vec![Stmt::Expr(Expr::If {
            cond: Box::new(cmp()),
            then_branch: Block { stmts: vec![Stmt::MacroCall] },
            else_branch: Some(Box::new(Expr::BlockExpr {
                block: Block { stmts: vec![Stmt::MacroCall] },
            })),
        })],
    );
    assert_eq!(calculate_cyclomatic_complexity(&f), 2);
    assert_eq!(calculate_nesting_depth(&f), 2);
}

// A match with no arms still opens its own scope and counts as one
// decision point.

#[test]
fn match_with_no_arms_counts_once() {
    let f = func(
        "armless",
        vec![Stmt::Expr(Expr::Match { scrutinee: Box::new(Expr::Leaf), arms: vec![] })],
    );
    assert_eq!(calculate_cyclomatic_complexity(&f), 2);
    assert_eq!(calculate_nesting_depth(&f), 1);
}

// Each loop construct, empty-bodied, contributes exactly 1 to each metric.

#[test]
fn empty_bodied_loops_contribute_exactly_one() {
    let w = func(
        "w",
        vec![Stmt::Expr(Expr::While {
            cond: Box::new(Expr::Leaf),
            body: Block { stmts: vec![] },
        })],
    );
    let fo = func(
        "f",
        vec![Stmt::Expr(Expr::ForLoop {
            iter: Box::new(Expr::Leaf),
            body: Block { stmts: vec![] },
        })],
    );
    let l = func("l", vec![Stmt::Expr(Expr::Loop { body: Block { stmts: vec![] } })]);

    assert_eq!(calculate_cyclomatic_complexity(&w), 2);
    assert_eq!(calculate_nesting_depth(&w), 1);
    assert_eq!(calculate_cyclomatic_complexity(&fo), 2);
    assert_eq!(calculate_nesting_depth(&fo), 1);
    assert_eq!(calculate_cyclomatic_complexity(&l), 2);
    assert_eq!(calculate_nesting_depth(&l), 1);
}

// `a && b || c` contributes two units beyond the conditional's own one.

#[test]
fn short_circuit_chain_contributes_two_units() {
    let chain = Expr::Binary {
        op: BinOp::Or,
        left: Box::new(Expr::Binary {
            op: BinOp::And,
            left: Box::new(Expr::Leaf),
            right: Box::new(Expr::Leaf),
        }),
        right: Box::new(Expr::Leaf),
    };
    let f = func("chain", vec![Stmt::Expr(if_then(chain, vec![]))]);
    // base 1 + if 1 + two operators 2 = 4
    assert_eq!(calculate_cyclomatic_complexity(&f), 4);
}

// Six directly nested control constructs reach nesting depth six.

#[test]
fn six_nested_constructs_reach_depth_six() {
    let level6 = if_then(Expr::Leaf, vec![]);
    let level5 = if_then(Expr::Leaf, vec![Stmt::Expr(level6)]);
    let level4 = Expr::Match {
        scrutinee: Box::new(Expr::Leaf),
        arms: vec![MatchArm { guard: None, body: level5 }],
    };
    let level3 = Expr::While {
        cond: Box::new(Expr::Leaf),
        body: Block { stmts: vec![Stmt::Expr(level4)] },
    };
    let level2 = Expr::ForLoop {
        iter: Box::new(Expr::Leaf),
        body: Block { stmts: vec![Stmt::Expr(level3)] },
    };
    let f = func(
        "six_levels",
        vec![Stmt::Expr(if_then(Expr::Leaf, vec![Stmt::Expr(level2)]))],
    );
    assert_eq!(calculate_nesting_depth(&f), 6);
}

// A closure whose body is a conditional: two levels of nesting, and the
// closure boundary itself adds nothing to complexity.

#[test]
fn closure_with_if_nests_twice_and_adds_one_decision() {
    let f = func(
        "closing",
        vec![Stmt::Local(Some(Expr::Closure {
            body: Box::new(if_then(Expr::Leaf, vec![Stmt::MacroCall])),
        }))],
    );
    assert_eq!(calculate_nesting_depth(&f), 2);
    assert_eq!(calculate_cyclomatic_complexity(&f), 2);
}

// A nested function item is measured as a unit of its own; it adds nothing
// to the enclosing function's metrics. A macro invocation is opaque.

#[test]
fn nested_items_and_macros_add_nothing() {
    let f = func(
        "outer",
        vec![Stmt::Item, Stmt::MacroCall, Stmt::Expr(Expr::Leaf)],
    );
    assert_eq!(calculate_cyclomatic_complexity(&f), 1);
    assert_eq!(calculate_nesting_depth(&f), 0);
}

// Line classification partitions a span.

#[test]
fn line_counts_partition_the_span() {
    let span = FunctionSpan {
        name: "f".to_string(),
        lines: strings(&["fn f() {", "// c", "", "}"]),
    };
    let (total, code, comment, empty) =
        fnloc::function_analyzer::count_function_lines(&span);
    assert_eq!(total, 4);
    assert_eq!(code, 2);
    assert_eq!(comment, 1);
    assert_eq!(empty, 1);
    assert_eq!(code + comment + empty, total);
}

// Trimming strips every whitespace character, not only the common ASCII
// ones: a form-feed or no-break-space prefix does not turn a comment into
// code, and a line of exotic whitespace is empty.

#[test]
fn line_classification_trims_all_whitespace() {
    let span = FunctionSpan {
        name: "ws".to_string(),
        lines: strings(&[
            "\u{000C}// section comment",
            "\u{000B}\u{000C}",
            "\u{00A0}/* note */",
            "\u{2003}\u{3000}",
            "\u{0085}code();",
        ]),
    };
    let (total, code, comment, empty) =
        fnloc::function_analyzer::count_function_lines(&span);
    assert_eq!(total, 5);
    assert_eq!(code, 1);
    assert_eq!(comment, 2);
    assert_eq!(empty, 2);
}

// Pure functions: measuring the same body twice yields identical results.

#[test]
fn metrics_are_identical_across_repeated_runs() {
    let f = func(
        "again",
        vec![Stmt::Expr(if_then(cmp(), vec![Stmt::Expr(Expr::Loop {
            body: Block { stmts: vec![Stmt::Expr(Expr::Break { value: None })] },
        })]))],
    );
    assert_eq!(
        calculate_cyclomatic_complexity(&f),
        calculate_cyclomatic_complexity(&f)
    );
    assert_eq!(calculate_nesting_depth(&f), calculate_nesting_depth(&f));
}

// Span location by brace matching.

#[test]
fn function_bounds_found_in_plain_source() {
    let lines = strings(&[
        "use something;",
        "",
        "fn hello() {",
        "    println!(\"hi\");",
        "}",
        "",
        "fn later() {}",
    ]);
    assert_eq!(find_function_bounds(&lines, "hello"), Some((2, 4)));
    assert_eq!(find_function_bounds(&lines, "later"), Some((6, 6)));
    assert_eq!(find_function_bounds(&lines, "absent"), None);
}

#[test]
fn function_bounds_need_a_closing_brace() {
    let lines = strings(&["fn broken() {", "    let x = 1;"]);
    assert_eq!(find_function_bounds(&lines, "broken"), None);
}

#[test]
fn extract_function_spans_slices_each_function() {
    let lines = strings(&["fn a() {", "}", "fn b() { }"]);
    let unit = SourceUnit {
        functions: vec![func("a", vec![]), func("b", vec![])],
    };
    let spans = extract_function_spans(&lines, &unit);
    assert_eq!(spans.len(), 2);
    assert_eq!(spans[0].name, "a");
    assert_eq!(spans[0].lines, strings(&["fn a() {", "}"]));
    assert_eq!(spans[1].name, "b");
    assert_eq!(spans[1].lines, strings(&["fn b() { }"]));
}

#[test]
fn analyze_file_functions_produces_one_record_per_span() {
    let lines = strings(&["fn a() {", "    // note", "}", "fn b() { }"]);
    let unit = SourceUnit {
        functions: vec![
            func("a", vec![]),
            func("b", vec![Stmt::Expr(if_then(cmp(), vec![]))]),
        ],
    };
    let results = analyze_file_functions(&lines, &unit);
    assert_eq!(results.len(), 2);
    assert_eq!(results[0].name, "a");
    assert_eq!(results[0].total, 3);
    assert_eq!(results[0].comment, 1);
    assert_eq!(results[0].cyclomatic_complexity, 1);
    assert_eq!(results[1].name, "b");
    assert_eq!(results[1].total, 1);
    assert_eq!(results[1].cyclomatic_complexity, 2);
    assert_eq!(results[1].nesting_depth, 1);
}

#[test]
fn analyze_all_files_qualifies_names_with_paths() {
    let file = SourceFile {
        path: "src//demo.rs".to_string(),
        lines: strings(&["fn a() {", "}"]),
        unit: SourceUnit { functions: vec![func("a", vec![])] },
    };
    let results = analyze_all_files(&vec![file]);
    assert_eq!(results.len(), 1);
    assert_eq!(results[0].name, "src/demo.rs::a");
}

#[test]
fn normalize_path_joins_the_path_components() {
    assert_eq!(normalize_path("src/a/b.rs"), "src/a/b.rs");
    assert_eq!(normalize_path("src//sub"), "src/sub");
    assert_eq!(normalize_path("src/"), "src");
    assert_eq!(normalize_path("./src"), "./src");
    assert_eq!(normalize_path("a/./b"), "a/b");
    assert_eq!(normalize_path("../x"), "../x");
    assert_eq!(normalize_path(""), "");
    assert_eq!(normalize_path("/"), "/");
    assert_eq!(normalize_path("."), ".");
    // a backslash is an ordinary file-name character, not a separator
    assert_eq!(normalize_path("src/a\\b"), "src/a\\b");
}

#[test]
fn normalize_path_is_idempotent() {
    for p in ["src//./sub/", "./a//b", "/x//y/", "", ".", "a\\b//c"] {
        let once = normalize_path(p);
        let twice = normalize_path(once.as_str());
        assert_eq!(once, twice);
    }
}

// File discovery decisions.

#[test]
fn rust_file_paths_need_an_rs_extension_and_a_stem() {
    assert!(is_rust_file("src/main.rs"));
    assert!(is_rust_file("a.rs"));
    assert!(!is_rust_file("src/.rs"));
    assert!(!is_rust_file(".rs"));
    assert!(!is_rust_file("main.txt"));
    assert!(!is_rust_file("rs"));
    // a backslash is an ordinary file-name character, so this stem is `a\`
    assert!(is_rust_file("dir/a\\.rs"));
}

#[test]
fn filter_rust_files_keeps_only_rust_sources() {
    let paths = strings(&["src", "src/a.rs", "src/b.txt", "src/c.rs"]);
    let files = filter_rust_files(paths, "src").unwrap();
    assert_eq!(files, strings(&["src/a.rs", "src/c.rs"]));
}

#[test]
fn filter_rust_files_reports_an_empty_directory() {
    let paths = strings(&["src", "src/readme.md"]);
    match filter_rust_files(paths, "src") {
        Err(AnalysisError::NoRustFiles { directory }) => assert_eq!(directory, "src"),
        _ => panic!("expected the no-Rust-files error"),
    }
}

// Error messages.

#[test]
fn error_messages_name_their_cause() {
    let io = AnalysisError::Io("file vanished".to_string());
    assert_eq!(io.message(), "IO error: file vanished");
    let dir = AnalysisError::DirectoryNotAccessible { directory: "deep".to_string() };
    assert_eq!(dir.message(), "Directory not accessible: deep");
    let none = AnalysisError::NoRustFiles { directory: "here".to_string() };
    assert_eq!(none.message(), "No Rust files found in directory: here");
}

// Rendering.

#[test]
fn numbers_render_in_decimal() {
    assert_eq!(usize_to_string(0), "0");
    assert_eq!(usize_to_string(7), "7");
    assert_eq!(usize_to_string(10), "10");
    assert_eq!(usize_to_string(90210), "90210");
    assert_eq!(usize_to_string(1234567890), "1234567890");
}

#[test]
fn table_output_is_sorted_by_code_descending() {
    let formatter = OutputFormatter::new();
    let results = vec![record("small", 2), record("big", 9), record("mid", 5)];
    let lines = formatter.display_results_sorted_by_code(&results);
    assert_eq!(lines.len(), 3);
    assert_eq!(
        lines[0],
        "  - fn big: total=9 lines, code=9, comment=0, empty=0, complexity=1, nesting=0"
    );
    assert_eq!(
        lines[1],
        "  - fn mid: total=5 lines, code=5, comment=0, empty=0, complexity=1, nesting=0"
    );
    assert_eq!(
        lines[2],
        "  - fn small: total=2 lines, code=2, comment=0, empty=0, complexity=1, nesting=0"
    );
}

#[test]
fn equal_code_counts_keep_their_first_seen_order() {
    let formatter = OutputFormatter::with_format(OutputFormat::Csv);
    let results = vec![record("first", 4), record("second", 4)];
    let lines = formatter.display_results_sorted_by_code(&results);
    assert_eq!(lines[0], "first,4,4,0,0,1,0");
    assert_eq!(lines[1], "second,4,4,0,0,1,0");
}

#[test]
fn default_formatter_uses_the_table_format() {
    let f = OutputFormatter::default();
    assert!(matches!(f.format, OutputFormat::Table));
}

#[test]
fn cli_options_carry_their_values() {
    let cli = fnloc::cli::Cli {
        directory: "./src".to_string(),
        verbose: false,
        min_lines: 10,
        limit: Some(25),
        sort: fnloc::cli::SortBy::Code,
        format: fnloc::cli::OutputFormat::Table,
    };
    assert_eq!(cli.directory, "./src");
    assert!(!cli.verbose);
    assert_eq!(cli.min_lines, 10);
    assert_eq!(cli.limit, Some(25));
    assert!(matches!(cli.sort, fnloc::cli::SortBy::Code));
    assert!(matches!(cli.format, fnloc::cli::OutputFormat::Table));
}

#[test]
fn json_output_brackets_the_rows() {
    let formatter = OutputFormatter::with_format(OutputFormat::Json);
    let results = vec![record("a", 3), record("b", 1)];
    let lines = formatter.display_results_sorted_by_code(&results);
    assert_eq!(lines.len(), 4);
    assert_eq!(lines[0], "[");
    assert_eq!(
        lines[1],
        "  {\"name\": \"a\", \"total\": 3, \"code\": 3, \"comment\": 0, \"empty\": 0, \"complexity\": 1, \"nesting\": 0},"
    );
    assert_eq!(
        lines[2],
        "  {\"name\": \"b\", \"total\": 1, \"code\": 1, \"comment\": 0, \"empty\": 0, \"complexity\": 1, \"nesting\": 0}"
    );
    assert_eq!(lines[3], "]");
}
