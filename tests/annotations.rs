use ta_lib::error_annotations::{render_errors_console, render_errors_html, ErrorAnnotation, ErrorSeverity};
use ta_lib::span::SourceSpan;

#[test]
fn test_error_severity_color() {
    assert_eq!(ErrorSeverity::Error.color(), (255, 0, 0));
    assert_eq!(ErrorSeverity::Warning.color(), (255, 165, 0));
    assert_eq!(ErrorSeverity::Info.color(), (0, 150, 255));
}

#[test]
fn test_error_severity_css_class() {
    assert_eq!(ErrorSeverity::Error.css_class(), "error");
    assert_eq!(ErrorSeverity::Warning.css_class(), "warning");
    assert_eq!(ErrorSeverity::Info.css_class(), "info");
}

#[test]
fn test_error_annotation_new() {
    let span = SourceSpan::new(10, 15);
    let annotation = ErrorAnnotation::new(span, "Test error".to_string(), ErrorSeverity::Error);

    assert_eq!(annotation.span(), span);
    assert_eq!(annotation.message(), "Test error");
    assert_eq!(annotation.severity(), ErrorSeverity::Error);
}

#[test]
fn test_line_computation_first_line() {
    let source = "const x = 42;";
    let annotation = ErrorAnnotation::new(SourceSpan::new(6, 7), "Error".to_string(), ErrorSeverity::Error);

    assert_eq!(annotation.line(source), 1);
}

#[test]
fn test_line_computation_second_line() {
    let source = "line 1\nline 2\nline 3";
    let annotation = ErrorAnnotation::new(SourceSpan::new(7, 12), "Error".to_string(), ErrorSeverity::Error);

    assert_eq!(annotation.line(source), 2);
}

#[test]
fn test_column_computation() {
    let source = "const x = 42;";
    let annotation = ErrorAnnotation::new(SourceSpan::new(6, 7), "Error".to_string(), ErrorSeverity::Error);

    assert_eq!(annotation.column(source), 7);
}

#[test]
fn test_end_line_computation() {
    let source = "line 1\nline 2";
    let annotation = ErrorAnnotation::new(SourceSpan::new(0, 13), "Error".to_string(), ErrorSeverity::Error);

    assert_eq!(annotation.end_line(source), 2);
}

#[test]
fn test_end_column_computation() {
    let source = "const x = 42;";
    let annotation = ErrorAnnotation::new(SourceSpan::new(6, 13), "Error".to_string(), ErrorSeverity::Error);

    assert_eq!(annotation.end_column(source), 14);
}

#[test]
fn test_console_rendering_contains_ansi_codes() {
    let source = "const x = 'hello';";
    let annotation =
        ErrorAnnotation::new(SourceSpan::new(10, 17), "Type error".to_string(), ErrorSeverity::Error);

    let output = annotation.render_console(source);
    assert!(output.contains("\x1b["));
    assert!(output.contains("Type error"));
    assert!(output.contains("const x = 'hello';"));
}

#[test]
fn test_console_rendering_has_underline() {
    let source = "const x = 42;";
    let annotation = ErrorAnnotation::new(SourceSpan::new(10, 12), "Error".to_string(), ErrorSeverity::Error);

    let output = annotation.render_console(source);
    assert!(output.contains("^"));
}

#[test]
fn test_html_rendering_has_popover() {
    let source = "const x = 'hello';";
    let annotation =
        ErrorAnnotation::new(SourceSpan::new(10, 17), "Type error".to_string(), ErrorSeverity::Error);

    let html = annotation.render_html(source, 1);
    assert!(html.contains("popovertarget=\"error-1\""));
    assert!(html.contains("aria-describedby=\"error-1\""));
    assert!(html.contains("role=\"alert\""));
    assert!(html.contains("Type error"));
}

#[test]
fn test_html_rendering_has_aria_labels() {
    let source = "const x = 42;";
    let annotation = ErrorAnnotation::new(SourceSpan::new(6, 7), "Unused".to_string(), ErrorSeverity::Warning);

    let html = annotation.render_html(source, 1);
    assert!(html.contains("aria-label=\"warning\""));
}

#[test]
fn test_render_multiple_errors_console() {
    let source = "const x = 'hello';\nconst y = 42;";
    let errors = vec![
        ErrorAnnotation::new(SourceSpan::new(10, 17), "Error 1".to_string(), ErrorSeverity::Error),
        ErrorAnnotation::new(SourceSpan::new(28, 30), "Error 2".to_string(), ErrorSeverity::Warning),
    ];

    let output = render_errors_console(source, &errors);
    assert!(output.contains("Error 1"));
    assert!(output.contains("Error 2"));
}

#[test]
fn test_render_multiple_errors_html() {
    let source = "const x = 'hello';";
    let errors = vec![
        ErrorAnnotation::new(SourceSpan::new(6, 7), "Error 1".to_string(), ErrorSeverity::Error),
        ErrorAnnotation::new(SourceSpan::new(10, 17), "Error 2".to_string(), ErrorSeverity::Warning),
    ];

    let html_map = render_errors_html(source, &errors);
    assert_eq!(html_map.len(), 2);
    assert!(html_map.contains_key(&1));
    assert!(html_map.contains_key(&2));
}

#[test]
fn test_overlapping_spans_handled() {
    let source = "const x = 42;";
    let errors = vec![
        ErrorAnnotation::new(SourceSpan::new(6, 12), "Error 1".to_string(), ErrorSeverity::Error),
        ErrorAnnotation::new(SourceSpan::new(10, 12), "Error 2".to_string(), ErrorSeverity::Warning),
    ];

    let output = render_errors_console(source, &errors);
    assert!(output.contains("Error 1"));
    assert!(output.contains("Error 2"));
}

// ---------------------------------------------------------------------------
// Further cases
// ---------------------------------------------------------------------------

#[test]
fn underline_of_two_columns_after_ten_spaces() {
    // columns 11 to 13 on one line
    let source = "const x = 42;";
    let annotation = ErrorAnnotation::new(SourceSpan::new(10, 12), "Bad".to_string(), ErrorSeverity::Error);
    assert_eq!(annotation.column(source), 11);
    assert_eq!(annotation.end_column(source), 13);
    let output = annotation.render_console(source);
    let underline = output.lines().nth(1).unwrap();
    assert!(underline.starts_with("          \x1b["));
    assert!(!underline.starts_with("           "));
    assert_eq!(underline.matches('^').count(), 2);
    assert_eq!(
        output,
        "const x = 42;\n          \x1b[38;2;255;0;0;4m^^\x1b[0m\n\x1b[38;2;255;0;0;4mBad\n"
    );
}

#[test]
fn zero_width_annotation_gets_one_caret() {
    let source = "abc";
    let annotation = ErrorAnnotation::new(SourceSpan::new(1, 1), "here".to_string(), ErrorSeverity::Info);
    let output = annotation.render_console(source);
    assert_eq!(output, "abc\n \x1b[38;2;0;150;255;4m^\x1b[0m\n\x1b[38;2;0;150;255;4mhere\n");
}

#[test]
fn multi_line_annotation_underlines_to_end_of_line() {
    let source = "let a = 1;\nlet b = 2;";
    let annotation = ErrorAnnotation::new(SourceSpan::new(4, 15), "span".to_string(), ErrorSeverity::Warning);
    let output = annotation.render_console(source);
    let underline = output.lines().nth(1).unwrap();
    assert_eq!(underline.matches('^').count(), 6);
    assert!(underline.starts_with("    \x1b[38;2;255;165;0;4m"));
}

#[test]
fn html_rendering_escapes_text_and_message() {
    let source = "a < b && c";
    let annotation = ErrorAnnotation::new(SourceSpan::new(2, 8), "x > y".to_string(), ErrorSeverity::Error);
    let html = annotation.render_html(source, 7);
    assert_eq!(
        html,
        "<span class=\"error-highlight error\" popovertarget=\"error-7\" aria-describedby=\"error-7\">\n  <span class=\"squiggle\" aria-label=\"error\">&lt; b &amp;&amp;</span>\n</span>\n<div id=\"error-7\" popover role=\"alert\">\n  <div class=\"error-message\">x &gt; y</div>\n</div>"
    );
}

#[test]
fn html_rendering_of_unusable_span_is_empty() {
    let annotation = ErrorAnnotation::new(SourceSpan::new(3, 50), "x".to_string(), ErrorSeverity::Error);
    assert_eq!(annotation.render_html("short", 1), "");
}

#[test]
fn batch_console_rendering_keeps_order() {
    let source = "abcdef";
    let errors = vec![
        ErrorAnnotation::new(SourceSpan::new(3, 4), "second".to_string(), ErrorSeverity::Error),
        ErrorAnnotation::new(SourceSpan::new(0, 1), "first".to_string(), ErrorSeverity::Error),
    ];
    let output = render_errors_console(source, &errors);
    let a = output.find("second").unwrap();
    let b = output.find("first").unwrap();
    assert!(a < b);
    assert_eq!(
        output,
        format!("{}\n{}\n", errors[0].render_console(source), errors[1].render_console(source))
    );
}
