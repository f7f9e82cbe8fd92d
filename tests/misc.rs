use ta_lib::paths::{import_candidates, is_relative_import, normalize_components, PathPart};
use ta_lib::jsdoc::annotation_text;
use ta_lib::globs::expand_braces;
use ta_lib::jsdoc::extract_jsdoc;
use ta_lib::diagnostics::{error_code, scope_path, NamedScope};
use ta_lib::highlighted::assemble_segments;
use ta_lib::cli::{error_matches, is_source_path, matches_filters, normalize_glob_pattern, symbol_name_matches};
use ta_lib::colorize::{ConsoleColorizer, HtmlColorizer, BLUE, CYAN, GREEN, RED, RESET};
use ta_lib::error::{HighlightError, Result};
use ta_lib::highlighted::{check_code_size, HighlightSegment, HighlightedCode, RgbColor, SegmentStyle};
use ta_lib::markdown::{format_code_block_header_console, parse_code_block_info};
use ta_lib::models::{ParameterInfo, PropertyInfo, SymbolInfo, SymbolKind, TypeError};
use ta_lib::span::SourceSpan;

#[test]
fn test_normalize_glob_pattern_no_wildcards() {
    assert_eq!(normalize_glob_pattern("foobar"), "*foobar*");
    assert_eq!(normalize_glob_pattern("MyClass"), "*MyClass*");
    assert_eq!(normalize_glob_pattern("test"), "*test*");
}

#[test]
fn test_normalize_glob_pattern_with_start_wildcard() {
    assert_eq!(normalize_glob_pattern("*Class"), "*Class*");
    assert_eq!(normalize_glob_pattern("?oo"), "?oo*");
}

#[test]
fn test_normalize_glob_pattern_with_end_wildcard() {
    assert_eq!(normalize_glob_pattern("Class*"), "*Class*");
    assert_eq!(normalize_glob_pattern("foo?"), "*foo?");
}

#[test]
fn test_normalize_glob_pattern_both_wildcards() {
    assert_eq!(normalize_glob_pattern("*foobar*"), "*foobar*");
    assert_eq!(normalize_glob_pattern("**/test/*"), "**/test/*");
    assert_eq!(normalize_glob_pattern("src/**/*.ts"), "src/**/*.ts");
}

#[test]
fn test_normalize_glob_pattern_with_braces() {
    assert_eq!(normalize_glob_pattern("{test,spec}"), "{test,spec}");
    assert_eq!(normalize_glob_pattern("*.{ts,tsx}"), "*.{ts,tsx}*");
}

#[test]
fn test_normalize_glob_pattern_with_brackets() {
    assert_eq!(normalize_glob_pattern("[abc]"), "[abc]");
    assert_eq!(normalize_glob_pattern("test[123]"), "*test[123]*");
}

#[test]
fn test_normalize_glob_pattern_complex() {
    assert_eq!(normalize_glob_pattern("src/**/*.test.{ts,tsx}"), "src/**/*.test.{ts,tsx}");
    assert_eq!(normalize_glob_pattern("**/foobar/**"), "**/foobar/**");
}

#[test]
fn test_console_colorizer() {
    let code = "const x: number = 5;";
    let colored = ConsoleColorizer::colorize_code_block(code, "ts");
    assert!(colored.contains(BLUE));
    assert!(colored.contains(CYAN));
    assert!(colored.contains(RESET));
}

#[test]
fn test_html_colorizer() {
    let code = "const x: number = 5;";
    let html = HtmlColorizer::colorize_code_block(code, "ts");
    assert!(html.contains("<span class=\"keyword\">const"));
    assert!(html.contains("<span class=\"type\">number"));
}

#[test]
fn test_unsupported_language_error() {
    let error = HighlightError::UnsupportedLanguage("cobol".to_string());
    assert_eq!(error.to_string(), "Unsupported language: cobol");
}

#[test]
fn test_theme_not_found_error() {
    let error = HighlightError::ThemeNotFound { name: "NonExistent".to_string() };
    assert_eq!(error.to_string(), "Theme 'NonExistent' not found");
}

#[test]
fn test_invalid_span_error() {
    let error = HighlightError::InvalidSpan { line: 100, column: 50 };
    assert_eq!(error.to_string(), "Invalid code span: line 100, column 50");
}

#[test]
fn test_code_block_too_large_error() {
    let error = HighlightError::CodeBlockTooLarge { size: 15000, max: 10000 };
    assert_eq!(error.to_string(), "Code block exceeds maximum size (15000 lines > 10000 lines)");
}

#[test]
fn test_syntect_error() {
    let error = HighlightError::SyntectError("parse failed".to_string());
    assert_eq!(error.to_string(), "Syntax highlighting failed: parse failed");
}

#[test]
fn test_theme_load_error_from_io() {
    let io_error = std::io::Error::new(std::io::ErrorKind::NotFound, "file not found");
    let error = HighlightError::ThemeLoadError { source: io_error };
    assert!(error.to_string().contains("Failed to load theme from file"));
}

#[test]
fn test_result_type_alias() {
    fn returns_result() -> Result<i32> {
        Ok(42)
    }

    assert_eq!(returns_result().unwrap(), 42);
}

#[test]
fn test_error_is_send_and_sync() {
    fn assert_send<T: Send>() {}
    fn assert_sync<T: Sync>() {}

    assert_send::<HighlightError>();
    assert_sync::<HighlightError>();
}

#[test]
fn test_format_code_block_header_console() {
    let header = format_code_block_header_console("ts", Some("My Function"));
    assert!(header.starts_with("┌─"));
    assert!(header.ends_with("─┐"));
    assert!(header.contains("ts"));
    assert!(header.contains("My Function"));
}

#[test]
fn test_format_code_block_header_console_no_title() {
    let header = format_code_block_header_console("js", None);
    assert!(header.starts_with("┌─"));
    assert!(header.ends_with("─┐"));
    assert!(header.contains("js"));
}

#[test]
fn test_parse_code_block_info_with_language_and_title() {
    let (lang, title) = parse_code_block_info(Some("ts My TypeScript Function"));
    assert_eq!(lang, Some("ts".to_string()));
    assert_eq!(title, Some("My TypeScript Function".to_string()));
}

#[test]
fn test_parse_code_block_info_language_only() {
    let (lang, title) = parse_code_block_info(Some("javascript"));
    assert_eq!(lang, Some("javascript".to_string()));
    assert_eq!(title, None);
}

#[test]
fn test_parse_code_block_info_empty() {
    let (lang, title) = parse_code_block_info(Some(""));
    assert_eq!(lang, None);
    assert_eq!(title, None);
}

#[test]
fn test_parse_code_block_info_indented() {
    let (lang, title) = parse_code_block_info(None);
    assert_eq!(lang, Some("text".to_string()));
    assert_eq!(title, None);
}

// ---------------------------------------------------------------------------
// Further cases
// ---------------------------------------------------------------------------

#[test]
fn header_pads_to_sixty_bytes() {
    let header = format_code_block_header_console("js", None);
    assert_eq!(header, format!("┌─ js {}─┐", "─".repeat(54)));
    let long = "x".repeat(70);
    assert_eq!(format_code_block_header_console(&long, None), format!("┌─ {} ─┐", long));
    assert_eq!(format_code_block_header_console("", None), format!("┌─{}─┐", "─".repeat(58)));
}

#[test]
fn info_string_words_are_split_on_any_whitespace() {
    let (lang, title) = parse_code_block_info(Some("  rust \t  main   file  "));
    assert_eq!(lang, Some("rust".to_string()));
    assert_eq!(title, Some("main file".to_string()));
    assert_eq!(parse_code_block_info(Some("   ")), (None, None));
}

#[test]
fn console_colorizer_exact_output() {
    let out = ConsoleColorizer::colorize_code_block("let s: string = 1;// c", "ts");
    assert_eq!(out, format!("{BLUE}let {RESET}s: {CYAN}string {RESET}= 1;{GREEN}// {RESET}c"));
    let glued = ConsoleColorizer::colorize_code_block("string;", "ts");
    assert_eq!(glued, "string;");
    let red = ConsoleColorizer::highlight_error(&SourceSpan::new(0, 1), "x");
    assert_eq!(red, format!("{RED}x{RESET}"));
}

#[test]
fn html_colorizer_escapes() {
    let html = HtmlColorizer::colorize_code_block("if a<b", "ts");
    assert_eq!(html, "<span class=\"keyword\">if </span>a&lt;b");
}

#[test]
fn html_error_block() {
    let error = TypeError {
        id: "E1".to_string(),
        message: "a < b".to_string(),
        file: "f.ts".to_string(),
        line: 1,
        column: 1,
        scope: "f.ts::x".to_string(),
        block: String::new(),
        source_code: None,
        span: SourceSpan::new(0, 1),
    };
    assert_eq!(
        HtmlColorizer::highlight_error(&error, "x & y"),
        "<div class=\"error-block\" data-error-id=\"E1\"><pre>x &amp; y</pre><div class=\"message\">a &lt; b</div></div>"
    );
}

#[test]
fn source_paths_and_filters() {
    assert!(is_source_path("./src/app.ts"));
    assert!(is_source_path("scripts/run.tsx"));
    assert!(!is_source_path("./src/app.test.ts"));
    assert!(!is_source_path("./lib/app.ts"));
    assert!(!is_source_path("./src/app.js"));
    let filters = vec!["util".to_string(), "core".to_string()];
    assert!(matches_filters("./src/core/a.ts", &filters));
    assert!(!matches_filters("./src/main.ts", &filters));
    assert!(matches_filters("./src/main.ts", &Vec::new()));
    assert!(symbol_name_matches("UserApi", "User"));
    assert!(!symbol_name_matches("UserApi", "!User"));
    assert!(symbol_name_matches("Other", "!User"));
    assert!(error_matches("Type mismatch", "a.ts::f", "mismatch"));
    assert!(error_matches("Type mismatch", "a.ts::f", "::f"));
    assert!(!error_matches("Type mismatch", "a.ts::f", "!f"));
}

fn symbol(kind: SymbolKind) -> SymbolInfo {
    SymbolInfo {
        name: "thing".to_string(),
        kind,
        file: "a.ts".to_string(),
        start_line: 1,
        end_line: 2,
        exported: true,
        parameters: None,
        properties: None,
        return_type: None,
        jsdoc: None,
    }
}

#[test]
fn display_signatures() {
    let mut f = symbol(SymbolKind::Function);
    f.name = "createContext".to_string();
    f.parameters = Some(vec![
        ParameterInfo { name: "name".to_string(), type_annotation: Some("string".to_string()), description: None },
        ParameterInfo { name: "opts".to_string(), type_annotation: None, description: None },
    ]);
    f.return_type = Some("Context".to_string());
    assert_eq!(f.display_signature(), "function createContext(name: string, opts): Context");
    f.return_type = None;
    f.parameters = None;
    assert_eq!(f.display_signature(), "function createContext()");

    let mut i = symbol(SymbolKind::Interface);
    i.name = "User".to_string();
    let prop = |n: &str, t: Option<&str>| PropertyInfo {
        name: n.to_string(),
        type_annotation: t.map(|s| s.to_string()),
        description: None,
    };
    i.properties = Some(vec![prop("id", Some("number")), prop("name", Some("string"))]);
    assert_eq!(i.display_signature(), "interface User { id: number, name: string }");
    i.properties = Some(vec![prop("a", None), prop("b", None), prop("c", None), prop("d", None)]);
    assert_eq!(i.display_signature(), "interface User { a, b, c, ... }");
    i.properties = Some(vec![]);
    assert_eq!(i.display_signature(), "interface User");

    assert_eq!(symbol(SymbolKind::Class).display_signature(), "class thing");
    assert_eq!(symbol(SymbolKind::Type).display_signature(), "type thing");
    assert_eq!(symbol(SymbolKind::Variable).display_signature(), "variable thing");
    assert_eq!(symbol(SymbolKind::Enum).display_signature(), "enum thing");
}

fn segment(text: &str, style: SegmentStyle) -> HighlightSegment {
    HighlightSegment { text: text.to_string(), style, line: 1, column: 1 }
}

fn plain() -> SegmentStyle {
    SegmentStyle { foreground: None, background: None, bold: false, italic: false, underline: false }
}

#[test]
fn highlighted_code_renderings() {
    let red = SegmentStyle {
        foreground: Some(RgbColor { r: 255, g: 0, b: 0 }),
        background: None,
        bold: true,
        italic: false,
        underline: true,
    };
    let code = HighlightedCode {
        segments: vec![segment("let", red), segment(" x<1\n", plain()), segment("y", plain())],
        line_count: 2,
        language: "ts".to_string(),
        theme: "t".to_string(),
        indent_spaces: 2,
    };
    assert_eq!(code.render_console(), "  \x1b[38;2;255;0;0;1;4mlet\x1b[0m x<1\n  y");
    assert_eq!(
        code.render_html(),
        "<pre><code>  <span style=\"color: rgb(255, 0, 0); font-weight: bold; text-decoration: underline\">let</span> x&lt;1\n  y</code></pre>"
    );
    let flat = HighlightedCode { indent_spaces: 0, ..code.clone() };
    assert_eq!(flat.render_console(), "\x1b[38;2;255;0;0;1;4mlet\x1b[0m x<1\ny");
}

#[test]
fn code_size_limit() {
    assert_eq!(check_code_size("a\nb").unwrap(), 2);
    let big = "x\n".repeat(10_001);
    match check_code_size(&big) {
        Err(HighlightError::CodeBlockTooLarge { size, max }) => assert_eq!((size, max), (10_001, 10_000)),
        _ => panic!("expected CodeBlockTooLarge"),
    }
    assert_eq!(check_code_size(&"x\n".repeat(10_000)).unwrap(), 10_000);
}

#[test]
fn braces_expand_in_order() {
    assert_eq!(
        expand_braces("{src,scripts}/**/*.{ts,tsx}"),
        vec!["./src/**/*.ts", "./src/**/*.tsx", "./scripts/**/*.ts", "./scripts/**/*.tsx"]
    );
    assert_eq!(expand_braces("./a/*.ts"), vec!["./a/*.ts"]);
    assert_eq!(expand_braces("a{b"), vec!["./a{b"]);
    assert_eq!(expand_braces("x{}y"), vec!["./xy"]);
    assert_eq!(expand_braces("{a,}"), vec!["./a", "./"]);
}

#[test]
fn doc_comment_before_declaration() {
    let source = "/** Adds two\n * numbers */\nfunction add() {}";
    let start = source.find("function").unwrap() as u32;
    assert_eq!(extract_jsdoc(source, start), Some("Adds two numbers */".to_string()));
    assert_eq!(extract_jsdoc(source, 0), None);
    let plain = "// note\nfunction f() {}";
    assert_eq!(extract_jsdoc(plain, plain.find("function").unwrap() as u32), None);
    let empty = "/** */\nlet x = 1;";
    assert_eq!(extract_jsdoc(empty, empty.find("let").unwrap() as u32), Some("*/".to_string()));
    let blank = "/**\n *\n */\nlet x = 1;";
    assert_eq!(extract_jsdoc(blank, blank.find("let").unwrap() as u32), None);
}

#[test]
fn error_codes_and_scope_paths() {
    assert_eq!(error_code(Some("TS"), Some("2322")), "TS2322");
    assert_eq!(error_code(Some("eslint"), None), "eslint");
    assert_eq!(error_code(None, Some("7")), "7");
    assert_eq!(error_code(None, None), "error");
    let named = vec![
        NamedScope { name: "Api".to_string(), span: SourceSpan::new(0, 100) },
        NamedScope { name: "get".to_string(), span: SourceSpan::new(10, 50) },
        NamedScope { name: "other".to_string(), span: SourceSpan::new(60, 90) },
    ];
    assert_eq!(scope_path(SourceSpan::new(20, 25), &named), "Api::get");
    assert_eq!(scope_path(SourceSpan::new(55, 56), &named), "Api");
    assert_eq!(scope_path(SourceSpan::new(150, 151), &named), "global");
}

#[test]
fn segments_are_numbered_by_line_and_column() {
    let st = plain();
    let lines = vec![
        vec![(st, "let".to_string()), (st, " é".to_string()), (st, "=1\n".to_string())],
        vec![(st, "x".to_string())],
    ];
    let segs = assemble_segments(&lines);
    let pos: Vec<(usize, usize)> = segs.iter().map(|s| (s.line, s.column)).collect();
    assert_eq!(pos, vec![(1, 1), (1, 4), (1, 6), (2, 1)]);
    assert_eq!(segs[2].text, "=1\n");
}

#[test]
fn annotation_text_strips_colon() {
    let source = "let x: number = 1;";
    assert_eq!(annotation_text(source, SourceSpan::new(5, 13), "type"), "number");
    assert_eq!(annotation_text(source, SourceSpan::new(5, 99), "type"), "type");
    assert_eq!(annotation_text(":: a ", SourceSpan::new(0, 5), "type"), "a");
}

#[test]
fn underline_only_segment_is_wrapped() {
    let styled = SegmentStyle {
        foreground: Some(RgbColor { r: 1, g: 2, b: 3 }),
        background: None,
        bold: true,
        italic: false,
        underline: false,
    };
    let underlined = SegmentStyle { underline: true, ..plain() };
    let code = HighlightedCode {
        segments: vec![segment("<x>", styled), segment("u", underlined)],
        line_count: 1,
        language: "ts".to_string(),
        theme: "t".to_string(),
        indent_spaces: 0,
    };
    assert_eq!(
        code.render_html(),
        "<pre><code><span style=\"color: rgb(1, 2, 3); font-weight: bold\">&lt;x&gt;</span><span style=\"text-decoration: underline\">u</span></code></pre>"
    );
}

#[test]
fn import_candidates_in_order() {
    use_paths();
}

fn use_paths() {
    use_candidates("./src/util", "./src/util/");
    use_candidates("lib/", "lib/");
    assert!(is_relative_import("./a"));
    assert!(is_relative_import("/abs"));
    assert!(!is_relative_import("react"));
    assert!(!is_relative_import(""));
    let parts = vec![
        PathPart::CurDir,
        PathPart::Normal("a".to_string()),
        PathPart::CurDir,
        PathPart::Normal("b".to_string()),
        PathPart::ParentDir,
        PathPart::ParentDir,
        PathPart::ParentDir,
        PathPart::Normal("c.ts".to_string()),
    ];
    let out: Vec<String> = normalize_components(&parts)
        .into_iter()
        .map(|p| match p {
            PathPart::Anchor(a) => a,
            PathPart::CurDir => ".".to_string(),
            PathPart::ParentDir => "..".to_string(),
            PathPart::Normal(n) => n,
        })
        .collect();
    assert_eq!(out, vec![".", "..", "c.ts"]);
}

fn use_candidates(base: &str, dir: &str) {
    let want: Vec<String> = vec![
        base.to_string(),
        format!("{}.ts", base),
        format!("{}.tsx", base),
        format!("{}.d.ts", base),
        format!("{}index.ts", dir),
        format!("{}index.tsx", dir),
        format!("{}index.d.ts", dir),
    ];
    assert_eq!(import_candidates(base), want);
}
