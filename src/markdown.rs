//! Markdown rendering from a stream of parse events: headings, paragraphs,
//! lists, inline code, rules and code blocks, for the terminal, HTML and
//! JSON.
use vstd::prelude::*;
use vstd::string::*;

use crate::chars::{
    chars_of, decimal, join_strings, join_with, push_char, push_chars, push_decimal, push_str, texts,
};
use crate::html::{escape_text, html_text};
use crate::lines::{trim, trim_chars};
use crate::options::MarkdownOptions;
use crate::output::OutputFormat;
use crate::lines::{is_space, is_space_char, views};

verus! {

/// The maximal runs of non-whitespace characters of `s`, in order.
pub open spec fn words(s: Seq<char>) -> Seq<Seq<char>>
    decreases s.len(),
{
    if s.len() == 0 {
        Seq::<Seq<char>>::empty()
    } else {
        let p = words(s.drop_last());
        if is_space(s.last()) {
            p
        } else if s.len() >= 2 && !is_space(s[s.len() - 2]) {
            p.update(p.len() - 1, p.last().push(s.last()))
        } else {
            p.push(seq![s.last()])
        }
    }
}

/// Splits `s` into its words.
pub fn split_words(s: &Vec<char>) -> (r: Vec<Vec<char>>)
    ensures
        views(r@) == words(s@),
{
    let mut done: Vec<Vec<char>> = Vec::new();
    let mut cur: Vec<char> = Vec::new();
    let mut i: usize = 0;
    assert(s@.take(0) =~= Seq::<char>::empty());
    while i < s.len()
        invariant
            i <= s@.len(),
            ({
                let w = words(s@.take(i as int));
                if cur@.len() == 0 {
                    views(done@) == w && (i == 0 || is_space(s@[i - 1]))
                } else {
                    w.len() > 0 && views(done@) == w.drop_last() && cur@ == w.last() && i > 0
                        && !is_space(s@[i - 1])
                }
            }),
        decreases s@.len() - i,
    {
        let ghost w = words(s@.take(i as int));
        let ghost w2 = words(s@.take(i + 1));
        assert(s@.take(i + 1).drop_last() =~= s@.take(i as int));
        let c = s[i];
        if is_space_char(c) {
            if cur.len() > 0 {
                let ghost before = views(done@);
                done.push(cur);
                cur = Vec::new();
                assert(views(done@) =~= before.push(w.last()));
                assert(views(done@) =~= w2);
            }
        } else {
            let ghost old_cur = cur@;
            cur.push(c);
            proof {
                if old_cur.len() == 0 {
                    assert(w2 == w.push(seq![c]));
                    assert(cur@ =~= seq![c]);
                    assert(views(done@) =~= w2.drop_last());
                } else {
                    assert(s@.take(i + 1)[i - 1] == s@[i - 1]);
                    assert(w2 == w.update(w.len() - 1, old_cur.push(c)));
                    assert(w2.drop_last() =~= w.drop_last());
                }
            }
        }
        i = i + 1;
    }
    assert(s@.take(i as int) =~= s@);
    if cur.len() > 0 {
        let ghost before = views(done@);
        done.push(cur);
        assert(views(done@) =~= before.push(words(s@).last()));
        assert(views(done@) =~= words(s@));
    }
    done
}

/// Language and title of a code block from its info string (`None` for an
/// indented block): the first word is the language, the remaining words
/// joined by single spaces the title. An indented block is `text`.
pub open spec fn code_block_info(info: Option<Seq<char>>) -> (Option<Seq<char>>, Option<Seq<char>>) {
    match info {
        None => (Some("text"@), None),
        Some(i) => {
            let ws = words(i);
            if ws.len() == 0 {
                (None, None)
            } else if ws.len() == 1 {
                (Some(ws[0]), None)
            } else {
                (Some(ws[0]), Some(join_with(ws.drop_first(), " "@)))
            }
        },
    }
}

pub open spec fn opt_view(o: Option<String>) -> Option<Seq<char>> {
    match o {
        Some(s) => Some(s@),
        None => None,
    }
}

fn string_of(v: &Vec<char>) -> (r: String)
    ensures
        r@ == v@,
{
    let mut s = String::new();
    push_chars(&mut s, v);
    s
}

/// Language and title of a code block; `info` is the info string of a
/// fenced block, `None` an indented block.
pub fn parse_code_block_info(info: Option<&str>) -> (r: (Option<String>, Option<String>))
    ensures
        (opt_view(r.0), opt_view(r.1)) == code_block_info(
            match info {
                Some(i) => Some(i@),
                None => None,
            },
        ),
{
    match info {
        None => (Some(String::from_str("text")), None),
        Some(i) => {
            let ws = split_words(&chars_of(i));
            if ws.len() == 0 {
                return (None, None);
            }
            let language = string_of(&ws[0]);
            if ws.len() == 1 {
                return (Some(language), None);
            }
            let mut rest: Vec<String> = Vec::new();
            let mut k: usize = 1;
            while k < ws.len()
                invariant
                    1 <= k <= ws@.len(),
                    texts(rest@) == views(ws@).subrange(1, k as int),
                decreases ws@.len() - k,
            {
                let ghost before = texts(rest@);
                let w = string_of(&ws[k]);
                rest.push(w);
                assert(texts(rest@) =~= before.push(w@));
                k = k + 1;
                assert(texts(rest@) =~= views(ws@).subrange(1, k as int));
            }
            assert(views(ws@).subrange(1, k as int) =~= views(ws@).drop_first());
            let title = join_strings(&rest, " ");
            (Some(language), Some(title))
        },
    }
}

/// The console header line of a code block: `┌─`, the language and the
/// title, `─` padding up to sixty bytes, and `─┐`.
pub open spec fn header_content(language: Seq<char>, title: Option<Seq<char>>) -> Seq<char> {
    (if language.len() > 0 {
        " "@ + language + " "@
    } else {
        Seq::<char>::empty()
    }) + match title {
        Some(t) => " ─ "@ + t + " "@,
        None => Seq::<char>::empty(),
    }
}

pub open spec fn header_padding(content_bytes: nat) -> nat {
    if content_bytes + 2 >= 60 {
        0
    } else {
        (58 - content_bytes) as nat
    }
}

pub open spec fn header_line(language: Seq<char>, title: Option<Seq<char>>) -> Seq<char> {
    let c = header_content(language, title);
    "┌─"@ + c + Seq::new(header_padding(crate::text::bytes_of(c).len()), |i: int| '─') + "─┐"@
}

/// The console header of a code block with `language` and an optional
/// `title`.
pub fn format_code_block_header_console(language: &str, title: Option<&str>) -> (r: String)
    ensures
        r@ == header_line(
            language@,
            match title {
                Some(t) => Some(t@),
                None => None,
            },
        ),
{
    let mut content = String::new();
    if !language.is_empty() {
        push_str(&mut content, " ");
        push_str(&mut content, language);
        push_str(&mut content, " ");
    }
    if let Some(t) = title {
        push_str(&mut content, " ─ ");
        push_str(&mut content, t);
        push_str(&mut content, " ");
    }
    let ghost tv = match title {
        Some(t) => Some(t@),
        None => None::<Seq<char>>,
    };
    assert(content@ =~= header_content(language@, tv));
    let n = content.as_str().as_bytes().len();
    assert(n == crate::text::bytes_of(content@).len());
    let pad = if n >= 58 {
        0
    } else {
        58 - n
    };
    let mut out = String::new();
    push_str(&mut out, "┌─");
    push_str(&mut out, content.as_str());
    let ghost before = out@;
    let mut i: usize = 0;
    while i < pad
        invariant
            i <= pad,
            out@ == before + Seq::new(i as nat, |k: int| '─'),
        decreases pad - i,
    {
        crate::chars::push_char(&mut out, '─');
        i = i + 1;
        assert(out@ =~= before + Seq::new(i as nat, |k: int| '─'));
    }
    push_str(&mut out, "─┐");
    assert(pad == header_padding(crate::text::bytes_of(content@).len()));
    out
}

// ---------------------------------------------------------------------------
// Formatting a stream of Markdown events
// ---------------------------------------------------------------------------

/// The start of a Markdown element, as far as formatting cares.
#[derive(Clone, Debug)]
pub enum MdTag {
    /// A code block: the info string of a fenced block, `None` for an
    /// indented one.
    CodeBlock(Option<String>),
    Heading(usize),
    Paragraph,
    List,
    Item,
    Emphasis,
    Strong,
    Other,
}

/// The end of a Markdown element.
#[derive(Clone, Copy, Debug, PartialEq, Eq, Structural)]
pub enum MdTagEnd {
    CodeBlock,
    Heading,
    Paragraph,
    List,
    Emphasis,
    Strong,
    Other,
}

/// One event of a Markdown parse.
#[derive(Clone, Debug)]
pub enum MdEvent {
    Start(MdTag),
    End(MdTagEnd),
    Text(String),
    Code(String),
    SoftBreak,
    HardBreak,
    Rule,
    Other,
}

/// What the formatter is inside of.
#[derive(Clone, Copy, Debug, PartialEq, Eq, Structural)]
pub enum FormatterState {
    Prose,
    CodeBlock,
    Heading(usize),
    Paragraph,
    List,
}

/// Rendered Markdown.
#[derive(Clone, Debug)]
pub struct FormattedMarkdown {
    pub output: String,
    pub format: OutputFormat,
    pub code_block_count: usize,
}

impl FormattedMarkdown {
    pub fn new(output: String, format: OutputFormat, code_block_count: usize) -> (r: FormattedMarkdown)
        ensures
            r.output == output,
            r.format == format,
            r.code_block_count == code_block_count,
    {
        FormattedMarkdown { output, format, code_block_count }
    }

    pub fn as_str(&self) -> (r: &str)
        ensures
            r@ == self.output@,
    {
        self.output.as_str()
    }
}

/// Renders Markdown event by event. Code blocks are highlighted by the
/// caller: at the end of a code block, `process_event` takes the
/// highlighted rendering of `code_block_request()`, if highlighting
/// succeeded.
#[derive(Clone, Debug)]
pub struct MarkdownFormatter {
    pub options: MarkdownOptions,
    pub output: String,
    pub state: FormatterState,
    pub code_block_count: usize,
    pub current_code: String,
    pub current_language: Option<String>,
    pub current_title: Option<String>,
}

pub open spec fn is_html(f: MarkdownFormatter) -> bool {
    f.options.output_format == OutputFormat::Html
}

/// Text added at the start of an element.
pub open spec fn start_text(f: MarkdownFormatter, t: MdTag) -> Seq<char> {
    match t {
        MdTag::Heading(_) => "\n\n"@,
        MdTag::Paragraph => "\n\n"@,
        MdTag::List => "\n"@,
        MdTag::Item => "\n  • "@,
        MdTag::Emphasis => if is_html(f) { "<em>"@ } else { Seq::<char>::empty() },
        MdTag::Strong => if is_html(f) { "<strong>"@ } else { Seq::<char>::empty() },
        _ => Seq::<char>::empty(),
    }
}

/// Text added at the end of an element other than a code block.
pub open spec fn end_text(f: MarkdownFormatter, t: MdTagEnd) -> Seq<char> {
    match t {
        MdTagEnd::Heading => "\n"@,
        MdTagEnd::List => "\n"@,
        MdTagEnd::Emphasis => if is_html(f) { "</em>"@ } else { Seq::<char>::empty() },
        MdTagEnd::Strong => if is_html(f) { "</strong>"@ } else { Seq::<char>::empty() },
        _ => Seq::<char>::empty(),
    }
}

/// A heading's text: `#` marks in the terminal, `<hN>` in HTML, plain in
/// JSON.
pub open spec fn heading_text(format: OutputFormat, text: Seq<char>, level: usize) -> Seq<char> {
    match format {
        OutputFormat::Console => Seq::new(level as nat, |i: int| '#') + " "@ + text,
        OutputFormat::Html => "<h"@ + decimal(level as nat) + ">"@ + html_text(text) + "</h"@
            + decimal(level as nat) + ">"@,
        OutputFormat::Json => text,
    }
}

/// Inline code: backquoted in the terminal, `<code>` in HTML, plain in
/// JSON.
pub open spec fn inline_code_text(format: OutputFormat, code: Seq<char>) -> Seq<char> {
    match format {
        OutputFormat::Console => "`"@ + code + "`"@,
        OutputFormat::Html => "<code>"@ + html_text(code) + "</code>"@,
        OutputFormat::Json => code,
    }
}

pub open spec fn rule_text(format: OutputFormat) -> Seq<char> {
    match format {
        OutputFormat::Console => "\n\n───────────────────────────────────────\n\n"@,
        OutputFormat::Html => "\n<hr>\n"@,
        OutputFormat::Json => "\n---\n"@,
    }
}

/// The language of the open code block (`text` when it has none).
pub open spec fn block_language(f: MarkdownFormatter) -> Seq<char> {
    match f.current_language {
        Some(l) => l@,
        None => "text"@,
    }
}

pub open spec fn opt_seq(o: Option<String>) -> Option<Seq<char>> {
    match o {
        Some(s) => Some(s@),
        None => None,
    }
}

/// The HTML header of a code block with `language` and `title`.
pub open spec fn html_block_header(language: Seq<char>, title: Option<Seq<char>>) -> Seq<char> {
    if title is Some || language.len() > 0 {
        "  <div class=\"code-block__header\">\n"@ + match title {
            Some(t) => "    <span class=\"code-block__title\">"@ + t + "</span>\n"@,
            None => Seq::<char>::empty(),
        } + (if language.len() > 0 {
            "    <span class=\"code-block__language\" data-lang=\""@ + language + "\">"@ + language
                + "</span>\n"@
        } else {
            Seq::<char>::empty()
        }) + "  </div>\n"@
    } else {
        Seq::<char>::empty()
    }
}

/// A finished code block, given its highlighted rendering when there is one.
pub open spec fn code_block_text(
    format: OutputFormat,
    code: Seq<char>,
    language: Seq<char>,
    title: Option<Seq<char>>,
    highlighted: Option<Seq<char>>,
) -> Seq<char> {
    match format {
        OutputFormat::Console => "\n\n"@ + header_line(language, title) + "\n"@ + match highlighted {
            Some(h) => h,
            None => code,
        } + "└───────────────────────────────────────────────────────────┘\n"@,
        OutputFormat::Html => "\n"@ + "<div class=\"code-block\">\n"@ + html_block_header(language, title)
            + match highlighted {
            Some(h) => h,
            None => "<pre><code>"@ + html_text(code) + "</code></pre>"@,
        } + "</div>\n"@,
        OutputFormat::Json => "\n```"@ + language + match title {
            Some(t) => " "@ + t,
            None => Seq::<char>::empty(),
        } + "\n"@ + code + "\n```\n"@,
    }
}

impl MarkdownFormatter {
    pub fn new(options: MarkdownOptions) -> (r: MarkdownFormatter)
        ensures
            r.options == options,
            r.output@ == Seq::<char>::empty(),
            r.state == FormatterState::Prose,
            r.code_block_count == 0,
            r.current_code@ == Seq::<char>::empty(),
            r.current_language is None,
            r.current_title is None,
    {
        MarkdownFormatter {
            options,
            output: String::new(),
            state: FormatterState::Prose,
            code_block_count: 0,
            current_code: String::new(),
            current_language: None,
            current_title: None,
        }
    }

    /// The open code block: its code, language (`text` when none) and title.
    pub fn code_block_request(&self) -> (r: (String, String, Option<String>))
        ensures
            r.0@ == self.current_code@,
            r.1@ == block_language(*self),
            r.2 == self.current_title,
    {
        let language = match &self.current_language {
            Some(l) => l.clone(),
            None => String::from_str("text"),
        };
        (self.current_code.clone(), language, self.current_title.clone())
    }

    /// Handles the start of an element.
    pub fn handle_start_tag(&mut self, tag: MdTag)
        ensures
            final(self).options == old(self).options,
            final(self).code_block_count == old(self).code_block_count,
            final(self).output@ == old(self).output@ + start_text(*old(self), tag),
            match tag {
                MdTag::CodeBlock(info) => {
                    let (l, t) = code_block_info(match info {
                        Some(i) => Some(i@),
                        None => None,
                    });
                    &&& final(self).state == FormatterState::CodeBlock
                    &&& opt_seq(final(self).current_language) == l
                    &&& opt_seq(final(self).current_title) == t
                    &&& final(self).current_code@ == Seq::<char>::empty()
                },
                _ => {
                    &&& final(self).current_code == old(self).current_code
                    &&& final(self).current_language == old(self).current_language
                    &&& final(self).current_title == old(self).current_title
                    &&& final(self).state == match tag {
                        MdTag::Heading(l) => FormatterState::Heading(l),
                        MdTag::Paragraph => FormatterState::Paragraph,
                        MdTag::List => FormatterState::List,
                        _ => old(self).state,
                    }
                },
            },
    {
        let html = self.options.output_format == OutputFormat::Html;
        match tag {
            MdTag::CodeBlock(info) => {
                self.state = FormatterState::CodeBlock;
                let (lang, title) = match &info {
                    Some(i) => parse_code_block_info(Some(i.as_str())),
                    None => parse_code_block_info(None),
                };
                self.current_language = lang;
                self.current_title = title;
                self.current_code = String::new();
                assert(self.output@ =~= old(self).output@ + Seq::<char>::empty());
            },
            MdTag::Heading(level) => {
                self.state = FormatterState::Heading(level);
                push_str(&mut self.output, "\n\n");
            },
            MdTag::Paragraph => {
                self.state = FormatterState::Paragraph;
                push_str(&mut self.output, "\n\n");
            },
            MdTag::List => {
                self.state = FormatterState::List;
                push_str(&mut self.output, "\n");
            },
            MdTag::Item => {
                push_str(&mut self.output, "\n  • ");
            },
            MdTag::Emphasis => {
                if html {
                    push_str(&mut self.output, "<em>");
                } else {
                    assert(self.output@ =~= old(self).output@ + Seq::<char>::empty());
                }
            },
            MdTag::Strong => {
                if html {
                    push_str(&mut self.output, "<strong>");
                } else {
                    assert(self.output@ =~= old(self).output@ + Seq::<char>::empty());
                }
            },
            MdTag::Other => {
                assert(self.output@ =~= old(self).output@ + Seq::<char>::empty());
            },
        }
    }

    /// Handles the end of an element other than a code block.
    pub fn handle_end_tag(&mut self, tag_end: MdTagEnd)
        requires
            tag_end != MdTagEnd::CodeBlock,
        ensures
            final(self).options == old(self).options,
            final(self).code_block_count == old(self).code_block_count,
            final(self).current_code == old(self).current_code,
            final(self).current_language == old(self).current_language,
            final(self).current_title == old(self).current_title,
            final(self).output@ == old(self).output@ + end_text(*old(self), tag_end),
            final(self).state == match tag_end {
                MdTagEnd::Heading | MdTagEnd::Paragraph | MdTagEnd::List => FormatterState::Prose,
                _ => old(self).state,
            },
    {
        let html = self.options.output_format == OutputFormat::Html;
        match tag_end {
            MdTagEnd::Heading => {
                push_str(&mut self.output, "\n");
                self.state = FormatterState::Prose;
            },
            MdTagEnd::Paragraph => {
                self.state = FormatterState::Prose;
                assert(self.output@ =~= old(self).output@ + Seq::<char>::empty());
            },
            MdTagEnd::List => {
                push_str(&mut self.output, "\n");
                self.state = FormatterState::Prose;
            },
            MdTagEnd::Emphasis => {
                if html {
                    push_str(&mut self.output, "</em>");
                } else {
                    assert(self.output@ =~= old(self).output@ + Seq::<char>::empty());
                }
            },
            MdTagEnd::Strong => {
                if html {
                    push_str(&mut self.output, "</strong>");
                } else {
                    assert(self.output@ =~= old(self).output@ + Seq::<char>::empty());
                }
            },
            _ => {
                assert(self.output@ =~= old(self).output@ + Seq::<char>::empty());
            },
        }
    }

    /// Text: collected inside a code block, formatted as a heading inside a
    /// heading, copied otherwise.
    pub fn handle_text(&mut self, text: &str)
        ensures
            final(self).options == old(self).options,
            final(self).state == old(self).state,
            final(self).code_block_count == old(self).code_block_count,
            final(self).current_language == old(self).current_language,
            final(self).current_title == old(self).current_title,
            match old(self).state {
                FormatterState::CodeBlock => final(self).current_code@ == old(self).current_code@
                    + text@ && final(self).output == old(self).output,
                FormatterState::Heading(level) => final(self).current_code == old(self).current_code
                    && final(self).output@ == old(self).output@ + heading_text(
                    old(self).options.output_format,
                    text@,
                    level,
                ),
                _ => final(self).current_code == old(self).current_code && final(self).output@
                    == old(self).output@ + text@,
            },
    {
        match self.state {
            FormatterState::CodeBlock => push_str(&mut self.current_code, text),
            FormatterState::Heading(level) => self.format_heading(text, level),
            _ => push_str(&mut self.output, text),
        }
    }

    fn format_heading(&mut self, text: &str, level: usize)
        ensures
            final(self).options == old(self).options,
            final(self).state == old(self).state,
            final(self).code_block_count == old(self).code_block_count,
            final(self).current_code == old(self).current_code,
            final(self).current_language == old(self).current_language,
            final(self).current_title == old(self).current_title,
            final(self).output@ == old(self).output@ + heading_text(
                old(self).options.output_format,
                text@,
                level,
            ),
    {
        match self.options.output_format {
            OutputFormat::Console => {
                let ghost start = self.output@;
                let mut i: usize = 0;
                while i < level
                    invariant
                        i <= level,
                        self.output@ == start + Seq::new(i as nat, |k: int| '#'),
                        self.options == old(self).options,
                        self.state == old(self).state,
                        self.code_block_count == old(self).code_block_count,
                        self.current_code == old(self).current_code,
                        self.current_language == old(self).current_language,
                        self.current_title == old(self).current_title,
                    decreases level - i,
                {
                    push_char(&mut self.output, '#');
                    i = i + 1;
                    assert(self.output@ =~= start + Seq::new(i as nat, |k: int| '#'));
                }
                push_str(&mut self.output, " ");
                push_str(&mut self.output, text);
            },
            OutputFormat::Html => {
                push_str(&mut self.output, "<h");
                push_decimal(&mut self.output, level);
                push_str(&mut self.output, ">");
                let escaped = escape_text(text);
                push_str(&mut self.output, escaped.as_str());
                push_str(&mut self.output, "</h");
                push_decimal(&mut self.output, level);
                push_str(&mut self.output, ">");
            },
            OutputFormat::Json => push_str(&mut self.output, text),
        }
    }

    /// Inline code.
    pub fn handle_inline_code(&mut self, code: &str)
        ensures
            final(self).options == old(self).options,
            final(self).state == old(self).state,
            final(self).code_block_count == old(self).code_block_count,
            final(self).current_code == old(self).current_code,
            final(self).current_language == old(self).current_language,
            final(self).current_title == old(self).current_title,
            final(self).output@ == old(self).output@ + inline_code_text(
                old(self).options.output_format,
                code@,
            ),
    {
        match self.options.output_format {
            OutputFormat::Console => {
                push_str(&mut self.output, "`");
                push_str(&mut self.output, code);
                push_str(&mut self.output, "`");
            },
            OutputFormat::Html => {
                push_str(&mut self.output, "<code>");
                let escaped = escape_text(code);
                push_str(&mut self.output, escaped.as_str());
                push_str(&mut self.output, "</code>");
            },
            OutputFormat::Json => push_str(&mut self.output, code),
        }
    }

    /// A horizontal rule.
    pub fn handle_rule(&mut self)
        ensures
            final(self).options == old(self).options,
            final(self).state == old(self).state,
            final(self).code_block_count == old(self).code_block_count,
            final(self).current_code == old(self).current_code,
            final(self).current_language == old(self).current_language,
            final(self).current_title == old(self).current_title,
            final(self).output@ == old(self).output@ + rule_text(old(self).options.output_format),
    {
        match self.options.output_format {
            OutputFormat::Console => push_str(
                &mut self.output,
                "\n\n───────────────────────────────────────\n\n",
            ),
            OutputFormat::Html => push_str(&mut self.output, "\n<hr>\n"),
            OutputFormat::Json => push_str(&mut self.output, "\n---\n"),
        }
    }

    /// Closes the open code block, writing it with its highlighted rendering
    /// when there is one.
    pub fn flush_code_block(&mut self, highlighted: Option<String>)
        requires
            old(self).code_block_count < usize::MAX,
        ensures
            final(self).options == old(self).options,
            final(self).state == old(self).state,
            final(self).code_block_count == old(self).code_block_count + 1,
            final(self).current_code@ == Seq::<char>::empty(),
            final(self).current_language is None,
            final(self).current_title is None,
            final(self).output@ == old(self).output@ + code_block_text(
                old(self).options.output_format,
                old(self).current_code@,
                block_language(*old(self)),
                opt_seq(old(self).current_title),
                opt_seq(highlighted),
            ),
    {
        let (code, language, title) = self.code_block_request();
        self.current_title = None;
        self.code_block_count = self.code_block_count + 1;
        let block = code_block(self.options.output_format, &code, &language, &title, &highlighted);
        push_str(&mut self.output, block.as_str());
        self.current_code = String::new();
        self.current_language = None;
    }

    /// Handles one event; `highlighted` is used only at the end of a code
    /// block.
    pub fn process_event(&mut self, event: MdEvent, highlighted: Option<String>)
        requires
            old(self).code_block_count < usize::MAX,
        ensures
            final(self).options == old(self).options,
            match event {
                MdEvent::End(MdTagEnd::CodeBlock) => final(self).state == FormatterState::Prose
                    && final(self).code_block_count == old(self).code_block_count + 1
                    && final(self).output@ == old(self).output@ + code_block_text(
                    old(self).options.output_format,
                    old(self).current_code@,
                    block_language(*old(self)),
                    opt_seq(old(self).current_title),
                    opt_seq(highlighted),
                ),
                MdEvent::End(t) => final(self).output@ == old(self).output@ + end_text(*old(self), t),
                MdEvent::Start(t) => final(self).output@ == old(self).output@ + start_text(*old(self), t),
                MdEvent::Text(t) => match old(self).state {
                    FormatterState::CodeBlock => final(self).current_code@ == old(self).current_code@
                        + t@ && final(self).output == old(self).output,
                    FormatterState::Heading(level) => final(self).output@ == old(self).output@
                        + heading_text(old(self).options.output_format, t@, level),
                    _ => final(self).output@ == old(self).output@ + t@,
                },
                MdEvent::Code(c) => final(self).output@ == old(self).output@ + inline_code_text(
                    old(self).options.output_format,
                    c@,
                ),
                MdEvent::SoftBreak => final(self).output@ == old(self).output@.push(' '),
                MdEvent::HardBreak => final(self).output@ == old(self).output@.push('\n'),
                MdEvent::Rule => final(self).output@ == old(self).output@ + rule_text(
                    old(self).options.output_format,
                ),
                MdEvent::Other => final(self).output == old(self).output && final(self).state
                    == old(self).state,
            },
    {
        match event {
            MdEvent::Start(tag) => self.handle_start_tag(tag),
            MdEvent::End(MdTagEnd::CodeBlock) => {
                self.flush_code_block(highlighted);
                self.state = FormatterState::Prose;
            },
            MdEvent::End(tag_end) => self.handle_end_tag(tag_end),
            MdEvent::Text(text) => self.handle_text(text.as_str()),
            MdEvent::Code(code) => self.handle_inline_code(code.as_str()),
            MdEvent::SoftBreak => push_char(&mut self.output, ' '),
            MdEvent::HardBreak => push_char(&mut self.output, '\n'),
            MdEvent::Rule => self.handle_rule(),
            MdEvent::Other => {},
        }
    }

    /// The rendered text, trimmed.
    pub fn finalize(self) -> (r: String)
        ensures
            r@ == trim(self.output@),
    {
        let cs = chars_of(self.output.as_str());
        let t = trim_chars(&cs);
        let mut s = String::new();
        push_chars(&mut s, &t);
        s
    }
}

fn code_block(
    format: OutputFormat,
    code: &String,
    language: &String,
    title: &Option<String>,
    highlighted: &Option<String>,
) -> (r: String)
    ensures
        r@ == code_block_text(format, code@, language@, opt_seq(*title), opt_seq(*highlighted)),
{
    let mut out = String::new();
    match format {
        OutputFormat::Console => {
            push_str(&mut out, "\n\n");
            let header = format_code_block_header_console(
                language.as_str(),
                match title {
                    Some(t) => Some(t.as_str()),
                    None => None,
                },
            );
            push_str(&mut out, header.as_str());
            push_str(&mut out, "\n");
            match highlighted {
                Some(h) => push_str(&mut out, h.as_str()),
                None => push_str(&mut out, code.as_str()),
            }
            push_str(&mut out, "└───────────────────────────────────────────────────────────┘\n");
        },
        OutputFormat::Html => {
            push_str(&mut out, "\n");
            push_str(&mut out, "<div class=\"code-block\">\n");
            let header = html_header(language, title);
            push_str(&mut out, header.as_str());
            match highlighted {
                Some(h) => push_str(&mut out, h.as_str()),
                None => {
                    push_str(&mut out, "<pre><code>");
                    let escaped = escape_text(code.as_str());
                    push_str(&mut out, escaped.as_str());
                    push_str(&mut out, "</code></pre>");
                },
            }
            push_str(&mut out, "</div>\n");
        },
        OutputFormat::Json => {
            push_str(&mut out, "\n```");
            push_str(&mut out, language.as_str());
            if let Some(t) = title {
                push_str(&mut out, " ");
                push_str(&mut out, t.as_str());
            }
            push_str(&mut out, "\n");
            push_str(&mut out, code.as_str());
            push_str(&mut out, "\n```\n");
        },
    }
    out
}

fn html_header(language: &String, title: &Option<String>) -> (r: String)
    ensures
        r@ == html_block_header(language@, opt_seq(*title)),
{
    let mut out = String::new();
    let has_language = !language.as_str().is_empty();
    if title.is_some() || has_language {
        push_str(&mut out, "  <div class=\"code-block__header\">\n");
        if let Some(t) = title {
            push_str(&mut out, "    <span class=\"code-block__title\">");
            push_str(&mut out, t.as_str());
            push_str(&mut out, "</span>\n");
        }
        if has_language {
            push_str(&mut out, "    <span class=\"code-block__language\" data-lang=\"");
            push_str(&mut out, language.as_str());
            push_str(&mut out, "\">");
            push_str(&mut out, language.as_str());
            push_str(&mut out, "</span>\n");
        }
        push_str(&mut out, "  </div>\n");
    }
    out
}

} // verus!
