//! Options of code highlighting and Markdown rendering.
use vstd::prelude::*;

use crate::output::OutputFormat;

verus! {

/// How to highlight a block of code.
#[derive(Clone, Debug)]
pub struct HighlightOptions {
    /// Language token or file extension of the code.
    pub language: String,
    /// Theme for HTML output; the default light theme when `None`.
    pub light_theme: Option<String>,
    /// Theme for terminal and JSON output; the default dark theme when
    /// `None`.
    pub dark_theme: Option<String>,
    pub show_line_numbers: bool,
    pub indent_spaces: usize,
    pub error_spans: Vec<()>,
    pub output_format: OutputFormat,
}

impl Default for HighlightOptions {
    fn default() -> (r: HighlightOptions)
        ensures
            r.language@ == "js"@,
            r.light_theme is None,
            r.dark_theme is None,
            !r.show_line_numbers,
            r.indent_spaces == 0,
            r.error_spans@.len() == 0,
            r.output_format == OutputFormat::Console,
    {
        HighlightOptions {
            language: String::from_str("js"),
            light_theme: None,
            dark_theme: None,
            show_line_numbers: false,
            indent_spaces: 0,
            error_spans: Vec::new(),
            output_format: OutputFormat::Console,
        }
    }
}

impl HighlightOptions {
    /// Default options for `language`.
    pub fn new(language: &str) -> (r: HighlightOptions)
        ensures
            r.language@ == language@,
            r.light_theme is None,
            r.dark_theme is None,
            !r.show_line_numbers,
            r.indent_spaces == 0,
            r.error_spans@.len() == 0,
            r.output_format == OutputFormat::Console,
    {
        let mut r = HighlightOptions::default();
        r.language = String::from_str(language);
        r
    }

    /// Uses `theme` for both light and dark output.
    pub fn with_theme(self, theme: &str) -> (r: HighlightOptions)
        ensures
            r.language == self.language,
            r.light_theme matches Some(t) && t@ == theme@,
            r.dark_theme matches Some(t) && t@ == theme@,
            r.show_line_numbers == self.show_line_numbers,
            r.indent_spaces == self.indent_spaces,
            r.output_format == self.output_format,
    {
        let mut r = self;
        r.light_theme = Some(String::from_str(theme));
        r.dark_theme = Some(String::from_str(theme));
        r
    }

    pub fn with_line_numbers(self, show: bool) -> (r: HighlightOptions)
        ensures
            r.language == self.language,
            r.light_theme == self.light_theme,
            r.dark_theme == self.dark_theme,
            r.show_line_numbers == show,
            r.indent_spaces == self.indent_spaces,
            r.output_format == self.output_format,
    {
        let mut r = self;
        r.show_line_numbers = show;
        r
    }

    pub fn with_indent(self, spaces: usize) -> (r: HighlightOptions)
        ensures
            r.language == self.language,
            r.light_theme == self.light_theme,
            r.dark_theme == self.dark_theme,
            r.show_line_numbers == self.show_line_numbers,
            r.indent_spaces == spaces,
            r.output_format == self.output_format,
    {
        let mut r = self;
        r.indent_spaces = spaces;
        r
    }

    pub fn for_format(self, format: OutputFormat) -> (r: HighlightOptions)
        ensures
            r.language == self.language,
            r.light_theme == self.light_theme,
            r.dark_theme == self.dark_theme,
            r.show_line_numbers == self.show_line_numbers,
            r.indent_spaces == self.indent_spaces,
            r.output_format == format,
    {
        let mut r = self;
        r.output_format = format;
        r
    }

    /// The theme to highlight with: the dark theme (by default
    /// `base16-ocean.dark`) for terminal and JSON output, the light theme (by
    /// default `Solarized (light)`) for HTML.
    pub fn theme_name(&self) -> (r: String)
        ensures
            r@ == match self.output_format {
                OutputFormat::Html => match self.light_theme {
                    Some(t) => t@,
                    None => "Solarized (light)"@,
                },
                _ => match self.dark_theme {
                    Some(t) => t@,
                    None => "base16-ocean.dark"@,
                },
            },
    {
        match self.output_format {
            OutputFormat::Html => match &self.light_theme {
                Some(t) => t.clone(),
                None => String::from_str("Solarized (light)"),
            },
            _ => match &self.dark_theme {
                Some(t) => t.clone(),
                None => String::from_str("base16-ocean.dark"),
            },
        }
    }
}

/// How to render Markdown.
#[derive(Clone, Debug)]
pub struct MarkdownOptions {
    pub code_light_theme: Option<String>,
    pub code_dark_theme: Option<String>,
    pub show_line_numbers: bool,
    pub output_format: OutputFormat,
}

impl Default for MarkdownOptions {
    fn default() -> (r: MarkdownOptions)
        ensures
            r.code_light_theme is None,
            r.code_dark_theme is None,
            !r.show_line_numbers,
            r.output_format == OutputFormat::Console,
    {
        MarkdownOptions {
            code_light_theme: None,
            code_dark_theme: None,
            show_line_numbers: false,
            output_format: OutputFormat::Console,
        }
    }
}

impl MarkdownOptions {
    pub fn new() -> (r: MarkdownOptions)
        ensures
            r.code_light_theme is None,
            r.code_dark_theme is None,
            !r.show_line_numbers,
            r.output_format == OutputFormat::Console,
    {
        MarkdownOptions::default()
    }

    /// Uses `theme` for code blocks in both light and dark output.
    pub fn with_code_theme(self, theme: &str) -> (r: MarkdownOptions)
        ensures
            r.code_light_theme matches Some(t) && t@ == theme@,
            r.code_dark_theme matches Some(t) && t@ == theme@,
            r.show_line_numbers == self.show_line_numbers,
            r.output_format == self.output_format,
    {
        let mut r = self;
        r.code_light_theme = Some(String::from_str(theme));
        r.code_dark_theme = Some(String::from_str(theme));
        r
    }

    pub fn with_line_numbers(self, show: bool) -> (r: MarkdownOptions)
        ensures
            r.code_light_theme == self.code_light_theme,
            r.code_dark_theme == self.code_dark_theme,
            r.show_line_numbers == show,
            r.output_format == self.output_format,
    {
        let mut r = self;
        r.show_line_numbers = show;
        r
    }

    pub fn for_format(self, format: OutputFormat) -> (r: MarkdownOptions)
        ensures
            r.code_light_theme == self.code_light_theme,
            r.code_dark_theme == self.code_dark_theme,
            r.show_line_numbers == self.show_line_numbers,
            r.output_format == format,
    {
        let mut r = self;
        r.output_format = format;
        r
    }
}

} // verus!
