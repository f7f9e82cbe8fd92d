use ta_lib::chars::chars_of;
use ta_lib::code_context::{
    apply_truncation, extract_code_context, find_containing_scope, truncate_function_scope,
    truncate_module_scope, CodeContext, ScopeNode, ScopeType, TruncationInfo,
};
use ta_lib::error::HighlightError;
use ta_lib::lines::split_lines;
use ta_lib::span::SourceSpan;
use ta_lib::text::{calculate_column_number, calculate_line_number, extract_span_text};

fn line_vecs(lines: &[&str]) -> Vec<Vec<char>> {
    lines.iter().map(|l| l.chars().collect()).collect()
}

#[test]
fn test_code_context_struct() {
    let context = CodeContext {
        full_code: "function test() { return 42; }".to_string(),
        display_code: "function test() { return 42; }".to_string(),
        scope_type: ScopeType::Function,
        scope_name: "test".to_string(),
        truncation_info: None,
    };

    assert_eq!(context.scope_name, "test");
    assert_eq!(context.scope_type, ScopeType::Function);
    assert!(context.truncation_info.is_none());
}

#[test]
fn test_scope_type_variants() {
    assert_ne!(ScopeType::Function, ScopeType::Method);
    assert_ne!(ScopeType::Method, ScopeType::TypeUtility);
    assert_ne!(ScopeType::TypeUtility, ScopeType::ModuleLevel);
}

#[test]
fn test_truncation_info_struct() {
    let info = TruncationInfo {
        original_line_count: 30,
        displayed_line_count: 10,
        truncated_sections: vec![(5, 20)],
    };

    assert_eq!(info.original_line_count, 30);
    assert_eq!(info.displayed_line_count, 10);
    assert_eq!(info.truncated_sections.len(), 1);
}

#[test]
fn test_extract_span_text_bounds_checking() {
    let source = "function test() { return 42; }";
    let invalid_span = SourceSpan::new(0, 1000);

    let result = extract_span_text(source, invalid_span);
    assert!(result.is_err());

    if let Err(HighlightError::InvalidSpan { line, column }) = result {
        assert!(line >= 1);
        assert!(column >= 1);
    } else {
        panic!("Expected InvalidSpan error");
    }
}

#[test]
fn test_calculate_line_number() {
    let source = "line 1\nline 2\nline 3";

    assert_eq!(calculate_line_number(source, 0), 1);
    assert_eq!(calculate_line_number(source, 7), 2);
    assert_eq!(calculate_line_number(source, 14), 3);
}

#[test]
fn test_calculate_column_number() {
    let source = "line 1\nline 2\nline 3";

    assert_eq!(calculate_column_number(source, 0), 1);
    assert_eq!(calculate_column_number(source, 5), 6);
    assert_eq!(calculate_column_number(source, 7), 1);
    assert_eq!(calculate_column_number(source, 10), 4);
}

#[test]
fn test_extract_span_text_valid() {
    let source = "function test() { return 42; }";
    let span = SourceSpan::new(9, 13);

    let result = extract_span_text(source, span);
    assert!(result.is_ok());
    assert_eq!(result.unwrap(), "test");
}

#[test]
fn test_extract_span_text_invalid() {
    let source = "function test() { return 42; }";
    let invalid_span = SourceSpan::new(0, 1000);

    let result = extract_span_text(source, invalid_span);
    assert!(result.is_err());
}

#[test]
fn test_apply_truncation_short_code() {
    let code = "line 1\nline 2\nline 3";
    let error_span = SourceSpan::new(7, 13);
    let scope_span = SourceSpan::new(0, 20);

    let (display, info) = apply_truncation(code, error_span, scope_span, ScopeType::Function);

    assert_eq!(display, code);
    assert!(info.is_none());
}

#[test]
fn test_apply_truncation_long_function() {
    let lines: Vec<String> = (1..=30).map(|i| format!("line {}", i)).collect();
    let code = lines.join("\n");
    let error_span = SourceSpan::new(100, 110);
    let scope_span = SourceSpan::new(0, code.len() as u32);

    let (display, info) = apply_truncation(&code, error_span, scope_span, ScopeType::Function);

    assert!(info.is_some());
    if let Some(truncation_info) = info {
        assert_eq!(truncation_info.original_line_count, 30);
        assert!(truncation_info.displayed_line_count < 30);
        assert!(display.contains("┄┄┄"));
        assert!(display.contains("lines omitted"));
    }
}

// Module-level excerpts carry no omission markers and no truncation info.
#[test]
fn test_apply_truncation_module_level() {
    let lines: Vec<String> = (1..=30).map(|i| format!("line {}", i)).collect();
    let code = lines.join("\n");
    let error_span = SourceSpan::new(100, 110);
    let scope_span = SourceSpan::new(0, code.len() as u32);

    let (display, info) = apply_truncation(&code, error_span, scope_span, ScopeType::ModuleLevel);

    assert!(info.is_none());
    assert!(!display.contains("┄┄┄"));
    assert!(display.lines().count() < 30);
}

#[test]
fn test_truncate_function_scope_markers() {
    let lines: Vec<&str> = (1..=30).map(|_| "code").collect();
    let error_line = 15;

    let (display, info) = truncate_function_scope(&line_vecs(&lines), error_line, 30);

    assert!(display.contains("┄┄┄"));
    assert!(display.contains("lines omitted"));
    assert!(info.is_some());
}

// Module-level excerpts carry no omission markers and no truncation info.
#[test]
fn test_truncate_module_scope_markers() {
    let lines: Vec<&str> = (1..=30).map(|_| "code").collect();
    let error_line = 15;

    let (display, info) = truncate_module_scope(&line_vecs(&lines), error_line, 30);

    assert!(!display.contains("┄┄┄"));
    assert!(!display.contains("lines omitted"));
    assert!(info.is_none());
    assert_eq!(display, "code\ncode\ncode\ncode\ncode\ncode\ncode");
}

#[test]
fn test_calculate_line_number_boundary() {
    let source = "a\nb\nc";

    assert_eq!(calculate_line_number(source, 0), 1);
    assert_eq!(calculate_line_number(source, 1), 1);
    assert_eq!(calculate_line_number(source, 2), 2);
    assert_eq!(calculate_line_number(source, 4), 3);
}

#[test]
fn test_calculate_column_number_boundary() {
    let source = "abc\ndef\nghi";

    assert_eq!(calculate_column_number(source, 0), 1);
    assert_eq!(calculate_column_number(source, 2), 3);
    assert_eq!(calculate_column_number(source, 4), 1);
}

#[test]
fn test_truncation_edge_case_exactly_15_lines() {
    let lines: Vec<String> = (1..=15).map(|i| format!("line {}", i)).collect();
    let code = lines.join("\n");
    let error_span = SourceSpan::new(50, 60);
    let scope_span = SourceSpan::new(0, code.len() as u32);

    let (_display, info) = apply_truncation(&code, error_span, scope_span, ScopeType::Function);

    assert!(info.is_some());
    if let Some(truncation_info) = info {
        assert!(truncation_info.original_line_count >= 15);
    }
}

#[test]
fn test_truncation_edge_case_14_lines() {
    let lines: Vec<String> = (1..=14).map(|i| format!("line {}", i)).collect();
    let code = lines.join("\n");
    let error_span = SourceSpan::new(50, 60);
    let scope_span = SourceSpan::new(0, code.len() as u32);

    let (display, info) = apply_truncation(&code, error_span, scope_span, ScopeType::Function);

    assert!(info.is_none());
    assert_eq!(display, code);
}

// ---------------------------------------------------------------------------
// Further cases
// ---------------------------------------------------------------------------

#[test]
fn line_and_column_never_fail_on_odd_offsets() {
    let source = "aé\n€x";
    // 'é' is two bytes (1..3), '€' three bytes (4..7).
    assert_eq!(calculate_line_number(source, 2), 1);
    assert_eq!(calculate_column_number(source, 2), 2);
    assert_eq!(calculate_line_number(source, 5), 2);
    assert_eq!(calculate_column_number(source, 5), 1);
    assert_eq!(calculate_column_number(source, 7), 2);
    assert_eq!(calculate_line_number(source, usize::MAX), 1);
    assert_eq!(calculate_column_number(source, usize::MAX), 1);
    assert_eq!(calculate_line_number("", 0), 1);
    assert_eq!(calculate_column_number("", 3), 1);
}

#[test]
fn extract_rejects_inverted_and_split_characters() {
    let source = "ab\ncé";
    let inverted = extract_span_text(source, SourceSpan::new(3, 1));
    match inverted {
        Err(HighlightError::InvalidSpan { line, column }) => {
            assert_eq!((line, column), (2, 1));
        }
        _ => panic!("expected InvalidSpan"),
    }
    // byte 5 lies inside 'é'
    match extract_span_text(source, SourceSpan::new(3, 5)) {
        Err(HighlightError::InvalidSpan { line, column }) => assert_eq!((line, column), (2, 1)),
        _ => panic!("expected InvalidSpan"),
    }
    match extract_span_text(source, SourceSpan::new(40, 50)) {
        Err(HighlightError::InvalidSpan { line, column }) => assert_eq!((line, column), (2, 3)),
        _ => panic!("expected InvalidSpan"),
    }
    assert_eq!(extract_span_text(source, SourceSpan::new(3, 6)).unwrap(), "cé");
    assert_eq!(extract_span_text(source, SourceSpan::new(2, 2)).unwrap(), "");
}

fn class_with_method() -> Vec<ScopeNode> {
    vec![
        ScopeNode::Class { name: "Foo".to_string(), span: SourceSpan::new(0, 100) },
        ScopeNode::Method {
            name: "bar".to_string(),
            span: SourceSpan::new(20, 60),
            class_name: Some("Foo".to_string()),
        },
    ]
}

#[test]
fn method_inside_class_is_most_specific() {
    let info = find_containing_scope(SourceSpan::new(30, 30), &class_with_method(), 200);
    assert_eq!(info.name, "Foo::bar");
    assert_eq!(info.scope_type, ScopeType::Method);
    assert_eq!(info.span, SourceSpan::new(20, 60));

    let in_class = find_containing_scope(SourceSpan::new(70, 75), &class_with_method(), 200);
    assert_eq!(in_class.name, "Foo");
    assert_eq!(in_class.scope_type, ScopeType::Method);
}

#[test]
fn method_without_class_keeps_its_name() {
    let scopes = vec![ScopeNode::Method {
        name: "bar".to_string(),
        span: SourceSpan::new(20, 60),
        class_name: None,
    }];
    let info = find_containing_scope(SourceSpan::new(30, 31), &scopes, 200);
    assert_eq!(info.name, "bar");
}

#[test]
fn equal_sized_scopes_keep_the_first() {
    let scopes = vec![
        ScopeNode::Function { name: "first".to_string(), span: SourceSpan::new(0, 10) },
        ScopeNode::TypeUtility { name: "second".to_string(), span: SourceSpan::new(0, 10) },
    ];
    let info = find_containing_scope(SourceSpan::new(2, 3), &scopes, 10);
    assert_eq!(info.name, "first");
    assert_eq!(info.scope_type, ScopeType::Function);
}

#[test]
fn outside_every_scope_is_module_level() {
    let info = find_containing_scope(SourceSpan::new(150, 160), &class_with_method(), 200);
    assert_eq!(info.scope_type, ScopeType::ModuleLevel);
    assert_eq!(info.name, "global");
    assert_eq!(info.span, SourceSpan::new(0, 200));
}

#[test]
fn end_to_end_small_function() {
    let source = "function test() {\n  return 42;\n}";
    let scopes = vec![ScopeNode::Function {
        name: "test".to_string(),
        span: SourceSpan::new(0, source.len() as u32),
    }];
    let ctx = extract_code_context(source, SourceSpan::new(21, 27), &scopes).unwrap();
    assert_eq!(ctx.scope_type, ScopeType::Function);
    assert_eq!(ctx.scope_name, "test");
    assert_eq!(ctx.full_code, source);
    assert_eq!(ctx.display_code, ctx.full_code);
    assert!(ctx.truncation_info.is_none());
}

#[test]
fn end_to_end_span_past_source_fails() {
    let source = "let a = 1;\nlet b = 2;";
    match extract_code_context(source, SourceSpan::new(11, 99), &Vec::new()) {
        Err(HighlightError::InvalidSpan { line, column }) => assert_eq!((line, column), (2, 1)),
        _ => panic!("expected InvalidSpan"),
    }
}

#[test]
fn end_to_end_thirty_line_function() {
    let mut lines: Vec<String> = vec!["function big() {".to_string()];
    for i in 1..=28 {
        lines.push(format!("  step{};", i));
    }
    lines.push("}".to_string());
    let source = lines.join("\n");
    let error_start = source.find("step15").unwrap() as u32;
    let scopes = vec![ScopeNode::Function {
        name: "big".to_string(),
        span: SourceSpan::new(0, source.len() as u32),
    }];
    let ctx = extract_code_context(source.as_str(), SourceSpan::new(error_start, error_start + 6), &scopes)
        .unwrap();
    let info = ctx.truncation_info.clone().unwrap();
    let markers: Vec<&str> = ctx.display_code.lines().filter(|l| l.starts_with("┄┄┄ (")).collect();
    assert_eq!(markers.len(), 2);
    assert_eq!(info.truncated_sections.len(), 2);
    assert_eq!(info.original_line_count, 30);
    let non_marker = ctx.display_code.lines().count() - markers.len();
    let omitted: usize = info.truncated_sections.iter().map(|(a, b)| b - a + 1).sum();
    assert_eq!(omitted, info.original_line_count - non_marker);
    assert_eq!(
        ctx.display_code,
        "function big() {\n┄┄┄ (12 lines omitted) ┄┄┄\n  step13;\n  step14;\n  step15;\n  step16;\n  step17;\n┄┄┄ (11 lines omitted) ┄┄┄\n}"
    );
    assert_eq!(info.truncated_sections, vec![(2, 13), (19, 29)]);
    assert_eq!(info.displayed_line_count, 9);
}

#[test]
fn truncation_never_empties_function_text() {
    for n in 1..40 {
        let lines: Vec<String> = (1..=n).map(|i| format!("line {}", i)).collect();
        let code = lines.join("\n");
        let (display, info) =
            apply_truncation(&code, SourceSpan::new(0, 10), SourceSpan::new(0, code.len() as u32), ScopeType::Function);
        assert!(!display.is_empty());
        if let Some(info) = info {
            assert!(info.displayed_line_count <= info.original_line_count);
            assert_eq!(info.original_line_count, n);
        }
    }
}

#[test]
fn error_on_first_line_repeats_signature_in_window() {
    let lines: Vec<String> = (0..20).map(|i| format!("l{}", i)).collect();
    let code = lines.join("\n");
    let (display, info) =
        apply_truncation(&code, SourceSpan::new(0, 1), SourceSpan::new(0, code.len() as u32), ScopeType::Method);
    assert_eq!(display, "l0\nl0\nl1\nl2\n┄┄┄ (16 lines omitted) ┄┄┄\nl19");
    let info = info.unwrap();
    assert_eq!(info.truncated_sections, vec![(4, 19)]);
    assert_eq!(info.displayed_line_count, 6);
}

#[test]
fn module_window_stops_at_blank_lines_and_braces() {
    let code = "import a;\n\nlet x = 1;\n}\nlet y = 2;\nbad();\nlet z = 3;\nfunction f() {\nreturn;";
    let err = code.find("bad").unwrap() as u32;
    let (display, info) =
        apply_truncation(code, SourceSpan::new(err, err + 3), SourceSpan::new(0, code.len() as u32), ScopeType::ModuleLevel);
    assert!(info.is_none());
    assert_eq!(display, "}\nlet y = 2;\nbad();\nlet z = 3;");
}

#[test]
fn module_window_is_at_most_seven_lines() {
    let code = "a\nb\nc\nd\ne\nf\ng\nh\ni";
    let err = code.find('e').unwrap() as u32;
    let (display, _) =
        apply_truncation(code, SourceSpan::new(err, err), SourceSpan::new(0, code.len() as u32), ScopeType::ModuleLevel);
    assert_eq!(display, "b\nc\nd\ne\nf\ng\nh");
}

#[test]
fn lines_follow_str_lines() {
    for text in ["", "a", "a\n", "a\r\nb", "a\n\nb\n", "\n", "x\r", "a\rb\n"] {
        let got: Vec<String> = split_lines(&chars_of(text)).iter().map(|l| l.iter().collect()).collect();
        let want: Vec<String> = text.lines().map(|l| l.to_string()).collect();
        assert_eq!(got, want, "text {:?}", text);
    }
}

#[test]
fn end_to_end_rejects_every_unusable_span() {
    let source = "let a = 1;\nlet b = 2;";
    match extract_code_context(source, SourceSpan::new(5, 3), &Vec::new()) {
        Err(HighlightError::InvalidSpan { line, column }) => assert_eq!((line, column), (1, 6)),
        _ => panic!("expected InvalidSpan for an inverted span"),
    }
    match extract_code_context(source, SourceSpan::new(40, 50), &Vec::new()) {
        Err(HighlightError::InvalidSpan { line, column }) => assert_eq!((line, column), (2, 11)),
        _ => panic!("expected InvalidSpan at the clamped start"),
    }
    let wide = "aé";
    match extract_code_context(wide, SourceSpan::new(0, 2), &Vec::new()) {
        Err(HighlightError::InvalidSpan { line, column }) => assert_eq!((line, column), (1, 1)),
        _ => panic!("expected InvalidSpan for a split character"),
    }
}
