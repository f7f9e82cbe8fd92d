use ta_lib::markdown::{FormattedMarkdown, FormatterState, MarkdownFormatter, MdEvent, MdTag, MdTagEnd};
use ta_lib::options::MarkdownOptions;
use ta_lib::output::OutputFormat;

fn run(format: OutputFormat, events: Vec<MdEvent>, highlighted: Option<&str>) -> (String, usize) {
    let mut f = MarkdownFormatter::new(MarkdownOptions::new().for_format(format));
    for e in events {
        let h = match e {
            MdEvent::End(MdTagEnd::CodeBlock) => highlighted.map(|s| s.to_string()),
            _ => None,
        };
        f.process_event(e, h);
    }
    let n = f.code_block_count;
    (f.finalize(), n)
}

fn doc() -> Vec<MdEvent> {
    vec![
        MdEvent::Start(MdTag::Heading(2)),
        MdEvent::Text("Title <1>".to_string()),
        MdEvent::End(MdTagEnd::Heading),
        MdEvent::Start(MdTag::Paragraph),
        MdEvent::Text("Use ".to_string()),
        MdEvent::Code("a<b".to_string()),
        MdEvent::Start(MdTag::Emphasis),
        MdEvent::Text("now".to_string()),
        MdEvent::End(MdTagEnd::Emphasis),
        MdEvent::End(MdTagEnd::Paragraph),
        MdEvent::Start(MdTag::CodeBlock(Some("ts Demo".to_string()))),
        MdEvent::Text("let x = 1;\n".to_string()),
        MdEvent::End(MdTagEnd::CodeBlock),
        MdEvent::Rule,
    ]
}

#[test]
fn markdown_console_rendering() {
    let (out, n) = run(OutputFormat::Console, doc(), None);
    assert_eq!(n, 1);
    assert!(out.starts_with("## Title <1>\n\n\nUse `a<b`now"));
    assert!(out.contains("┌─ ts  ─ Demo "));
    assert!(out.contains("let x = 1;\n└"));
    assert!(out.ends_with("───────────────────────────────────────"));
}

#[test]
fn markdown_html_rendering() {
    let (out, _) = run(OutputFormat::Html, doc(), Some("<pre>HL</pre>"));
    assert!(out.starts_with("<h2>Title &lt;1&gt;</h2>\n\n\nUse <code>a&lt;b</code><em>now</em>"));
    assert!(out.contains(
        "<div class=\"code-block\">\n  <div class=\"code-block__header\">\n    <span class=\"code-block__title\">Demo</span>\n    <span class=\"code-block__language\" data-lang=\"ts\">ts</span>\n  </div>\n<pre>HL</pre></div>\n"
    ));
    assert!(out.ends_with("<hr>"));
}

#[test]
fn markdown_json_rendering() {
    let (out, n) = run(OutputFormat::Json, doc(), None);
    assert_eq!(n, 1);
    assert!(out.contains("\n```ts Demo\nlet x = 1;\n\n```\n"));
    assert!(out.ends_with("---"));
}

#[test]
fn indented_block_is_text() {
    let mut f = MarkdownFormatter::new(MarkdownOptions::new().for_format(OutputFormat::Json));
    f.process_event(MdEvent::Start(MdTag::CodeBlock(None)), None);
    assert_eq!(f.state, FormatterState::CodeBlock);
    let (code, language, title) = f.code_block_request();
    assert_eq!((code.as_str(), language.as_str(), title), ("", "text", None));
    f.process_event(MdEvent::Text("x".to_string()), None);
    f.process_event(MdEvent::End(MdTagEnd::CodeBlock), None);
    assert_eq!(f.state, FormatterState::Prose);
    assert_eq!(f.finalize(), "```text\nx\n```");
}

#[test]
fn test_formatted_markdown_accessors() {
    let fm = FormattedMarkdown::new("output".to_string(), OutputFormat::Console, 3);
    assert_eq!(fm.as_str(), "output");
    assert_eq!(fm.code_block_count, 3);
    assert_eq!(fm.format, OutputFormat::Console);
}

#[test]
fn theme_names_follow_the_output_format() {
    use_options();
}

fn use_options() {
    let options = ta_lib::options::HighlightOptions::new("rust")
        .with_theme("Dracula")
        .with_line_numbers(true)
        .for_format(OutputFormat::Json);
    assert_eq!(options.language, "rust");
    assert_eq!(options.light_theme, Some("Dracula".to_string()));
    assert!(options.show_line_numbers);
    assert!(matches!(options.output_format, OutputFormat::Json));
    assert_eq!(options.theme_name(), "Dracula");
    let html = ta_lib::options::HighlightOptions::new("js").for_format(OutputFormat::Html);
    assert_eq!(html.theme_name(), "Solarized (light)");
    assert_eq!(ta_lib::options::HighlightOptions::default().theme_name(), "base16-ocean.dark");
}
