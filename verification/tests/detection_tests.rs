use shadowlearn::detection::{debug_finding, detect_debug_pattern, detect_refacto_pattern, is_watched_path, normalize_code_block, should_process_event};

#[test]
fn test_detect_refacto_simple() {
    let code = r#"
fn process_a() {
    let x = 5;
    let y = 10;
    println!("Result: {}", x + y);
}

fn process_b() {
    let x = 5;
    let y = 10;
    println!("Result: {}", x + y);
}
"#;

    let result = detect_refacto_pattern(code);
    assert!(result.is_some());
}

#[test]
fn test_detect_debug_rust() {
    let code = r#"
fn main() {
    println!("Debug 1");
    let x = 5;
    println!("Debug 2");
    let y = 10;
    println!("Debug 3");
}
"#;

    let result = detect_debug_pattern(code);
    assert!(result.is_some());
}

#[test]
fn test_detect_debug_javascript() {
    let code = r#"
function test() {
    console.log("Debug 1");
    const x = 5;
    console.log("Debug 2");
    const y = 10;
    console.log("Debug 3");
    console.error("Debug 4");
}
"#;

    let result = detect_debug_pattern(code);
    assert!(result.is_some());
}

#[test]
fn refacto_details() {
    let code = "a1\nb1\nc1\nd1\nx\na1\nb1\nc1\nd1\ny\n";
    let f = detect_refacto_pattern(code).unwrap();
    assert_eq!(f.window_size, 4);
    assert_eq!(f.positions, vec![0, 5]);
    assert_eq!(f.snippet, "a1\nb1\nc1\nd1");
}

#[test]
fn refacto_none_for_small_or_distinct_files() {
    assert!(detect_refacto_pattern("a\nb\nc\nd\n").is_none());
    assert!(detect_refacto_pattern("a\nb\nc\nd\ne\nf\ng\n").is_none());
}

#[test]
fn refacto_ignores_comments_and_indentation() {
    let code = "  let a = 1;// one\nlet b = 2;\nlet c = 3;\nfoo();\nlet a = 1;\n   let b = 2;// two\nlet c = 3;\n";
    let f = detect_refacto_pattern(code).unwrap();
    assert_eq!(f.window_size, 3);
    assert_eq!(f.positions, vec![0, 4]);
}

#[test]
fn normalization() {
    let lines = vec!["  x = 1; // c".to_string(), "".to_string(), "// only".to_string(), "\ty".to_string()];
    assert_eq!(normalize_code_block(&lines), "x = 1; \ny");
}

#[test]
fn debug_details() {
    let code = "fn main() {\n    println!(\"a\");\n    println!(\"b\");\n    println!(\"c\");\n}\n";
    let f = detect_debug_pattern(code).unwrap();
    assert_eq!(f.count, 3);
    assert_eq!(f.language, "Rust");
    // The text before the first match spans two lines (the second one partly).
    assert_eq!(f.line, 3);
    assert_eq!(f.snippet, "    println!(\"a\");\n    println!(\"b\");\n    println!(\"c\");");
}

#[test]
fn debug_none_below_three() {
    assert!(detect_debug_pattern("console.log(1);\nconsole.log(2);\n").is_none());
}

#[test]
fn test_watched_paths() {
    assert!(is_watched_path("/home/u/project/src/main.rs"));
    assert!(is_watched_path("app/index.tsx"));
    assert!(!is_watched_path("notes.txt"));
    assert!(!is_watched_path("web/node_modules/x/index.js"));
    assert!(!is_watched_path("/p/target/debug/build.rs"));
    assert!(!is_watched_path("Makefile"));
    let paths = vec!["README.md".to_string(), "src/lib.rs".to_string()];
    assert!(should_process_event(true, &paths));
    assert!(!should_process_event(false, &paths));
    assert!(!should_process_event(true, &paths[..1]));
}

#[test]
fn debug_finding_from_given_starts() {
    let content = "a\nb\nprint(1)\nc\nprint(2)\n";
    // The statements start at bytes 4 and 15.
    let f = debug_finding(content, "Python", &[4, 15]);
    assert_eq!(f.count, 2);
    assert_eq!(f.language, "Python");
    assert_eq!(f.line, 3);
    assert_eq!(f.snippet, "b\nprint(1)\nc");
    let first = debug_finding(content, "Python", &[0]);
    assert_eq!(first.line, 1);
    assert_eq!(first.snippet, "a\nb");
}
