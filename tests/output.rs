use ta_lib::diagnostics::error_code;
use ta_lib::models::{ParameterInfo, PropertyInfo, SymbolInfo, SymbolKind, TypeError};
use ta_lib::output::{format_symbols_html, format_type_errors_html, link_to_path};
use ta_lib::span::SourceSpan;

fn sample_error() -> TypeError {
    TypeError {
        id: "TS2322".to_string(),
        message: "Type mismatch".to_string(),
        file: "test.ts".to_string(),
        line: 42,
        column: 10,
        scope: "myFunction".to_string(),
        block: String::new(),
        source_code: None,
        span: SourceSpan::new(0, 10),
    }
}

#[test]
fn test_html_output_contains_css_classes() {
    let errors = vec![sample_error()];

    let output = format_type_errors_html(&errors, &vec![None]);

    assert!(output.contains("class=\"error-id\""), "HTML should contain error-id class");
    assert!(output.contains("class=\"file-path\""), "HTML should contain file-path class");
    assert!(output.contains("class=\"scope\""), "HTML should contain scope class");
    assert!(output.contains("class=\"error-message\""), "HTML should contain error-message class");
}

#[test]
fn test_format_symbols_html_classes() {
    let symbol = SymbolInfo {
        name: "MyClass".to_string(),
        kind: SymbolKind::Class,
        file: "test.ts".to_string(),
        start_line: 1,
        end_line: 10,
        exported: true,
        parameters: Some(vec![ParameterInfo {
            name: "param1".to_string(),
            type_annotation: Some("string".to_string()),
            description: None,
        }]),
        properties: Some(vec![PropertyInfo {
            name: "prop1".to_string(),
            type_annotation: Some("number".to_string()),
            description: None,
        }]),
        return_type: None,
        jsdoc: None,
    };
    let output = format_symbols_html(&vec![symbol]);

    assert!(output.contains("class=\"keyword\""), "HTML should contain keyword class");
    assert!(output.contains("class=\"symbol-name\""), "HTML should contain symbol-name class");
    assert!(output.contains("class=\"file-path\""), "HTML should contain file-path class");
    assert!(output.contains("class=\"type-annotation\""), "HTML should contain type-annotation class");
}

#[test]
fn test_error_code_extraction_all_cases() {
    assert_eq!(error_code(Some("TS"), Some("2322")), "TS2322");
    assert_eq!(error_code(Some("TS"), None), "TS");
    assert_eq!(error_code(None, Some("1234")), "1234");
    assert_eq!(error_code(None, None), "error");
}

#[test]
fn type_error_html_exact() {
    let mut e = sample_error();
    e.block = "x < 1".to_string();
    let out = format_type_errors_html(&vec![e], &vec![None]);
    assert_eq!(
        out,
        "<div class=\"type-errors\">\n<div class=\"error-block\">\n  <div class=\"error-header\">\n    <span class=\"error-id\">[TS2322]</span>\n    <span class=\"keyword\">in</span>\n    <span class=\"scope\">myFunction</span>\n  </div>\n  <div class=\"error-location\">\n    <span class=\"keyword\">at</span>\n    <span class=\"file-path\">test.ts:42:10</span>\n  </div>\n  <div class=\"error-message\">Type mismatch</div>\n  <pre>x &lt; 1</pre>\n</div>\n</div>"
    );
}

#[test]
fn symbol_html_exact() {
    let s = SymbolInfo {
        name: "f<T>".to_string(),
        kind: SymbolKind::Function,
        file: "a.ts".to_string(),
        start_line: 3,
        end_line: 4,
        exported: false,
        parameters: Some(vec![]),
        properties: None,
        return_type: None,
        jsdoc: None,
    };
    assert_eq!(
        format_symbols_html(&vec![s]),
        "<div class=\"symbols\">\n<div class=\"symbol-block\" data-kind=\"Function\">\n  <div class=\"symbol-header\">\n    <span class=\"keyword\">Function</span>\n    <span class=\"symbol-name\">f&lt;T&gt;</span>\n    <span class=\"file-path\">a.ts:3-4</span>\n  </div>\n</div>\n</div>"
    );
}

#[test]
fn osc8_link() {
    assert_eq!(link_to_path("a.ts:1:2", "/p/a.ts"), "\x1b]8;;file:///p/a.ts\x1b\\a.ts:1:2\x1b]8;;\x1b\\");
}
