use ta_lib::options::{HighlightOptions, MarkdownOptions};
use ta_lib::output::OutputFormat;

#[test]
fn test_highlight_options_default() {
    let options = HighlightOptions::default();
    assert_eq!(options.language, "js");
    assert_eq!(options.light_theme, None);
    assert_eq!(options.dark_theme, None);
    assert!(!options.show_line_numbers);
    assert!(options.error_spans.is_empty());
}

#[test]
fn test_highlight_options_new() {
    let options = HighlightOptions::new("rust");
    assert_eq!(options.language, "rust");
}

#[test]
fn test_highlight_options_with_theme() {
    let options = HighlightOptions::new("typescript").with_theme("Monokai Extended");
    assert_eq!(options.light_theme, Some("Monokai Extended".to_string()));
    assert_eq!(options.dark_theme, Some("Monokai Extended".to_string()));
}

#[test]
fn test_highlight_options_with_line_numbers() {
    let options = HighlightOptions::new("typescript").with_line_numbers(true);
    assert!(options.show_line_numbers);
}

#[test]
fn test_highlight_options_for_format() {
    let options = HighlightOptions::new("typescript").for_format(OutputFormat::Html);
    assert!(matches!(options.output_format, OutputFormat::Html));
}

#[test]
fn test_highlight_options_builder_chain() {
    let options = HighlightOptions::new("rust")
        .with_theme("Dracula")
        .with_line_numbers(true)
        .for_format(OutputFormat::Json);
    assert_eq!(options.language, "rust");
    assert_eq!(options.light_theme, Some("Dracula".to_string()));
    assert!(options.show_line_numbers);
    assert!(matches!(options.output_format, OutputFormat::Json));
}

#[test]
fn test_markdown_options_default() {
    let options = MarkdownOptions::default();
    assert_eq!(options.code_light_theme, None);
    assert_eq!(options.code_dark_theme, None);
    assert!(!options.show_line_numbers);
}

#[test]
fn test_markdown_options_new() {
    let options = MarkdownOptions::new();
    assert!(!options.show_line_numbers);
}

#[test]
fn test_markdown_options_with_code_theme() {
    let options = MarkdownOptions::new().with_code_theme("Zenburn");
    assert_eq!(options.code_light_theme, Some("Zenburn".to_string()));
    assert_eq!(options.code_dark_theme, Some("Zenburn".to_string()));
}

#[test]
fn test_markdown_options_with_line_numbers() {
    let options = MarkdownOptions::new().with_line_numbers(true);
    assert!(options.show_line_numbers);
}

#[test]
fn test_markdown_options_for_format() {
    let options = MarkdownOptions::new().for_format(OutputFormat::Html);
    assert!(matches!(options.output_format, OutputFormat::Html));
}

#[test]
fn test_markdown_options_builder_chain() {
    let options = MarkdownOptions::new()
        .with_code_theme("Solarized (light)")
        .with_line_numbers(true)
        .for_format(OutputFormat::Console);
    assert_eq!(options.code_light_theme, Some("Solarized (light)".to_string()));
    assert!(options.show_line_numbers);
    assert!(matches!(options.output_format, OutputFormat::Console));
}

#[test]
fn test_options_are_clone() {
    let options1 = HighlightOptions::new("typescript");
    let _options2 = options1.clone();

    let md_options1 = MarkdownOptions::new();
    let _md_options2 = md_options1.clone();
}
