//! Position-anchored error annotations rendered for terminals and HTML.
use std::collections::HashMap;
use vstd::prelude::*;
use vstd::string::*;

use crate::ansi::{rgb_param, sgr, AnsiBuilder};
use crate::chars::{chars_of, decimal, push_char, push_chars, push_decimal, push_str};
use crate::html::{escape_text, html_text};
use crate::lines::{lines_of, split_lines};
use crate::span::SourceSpan;
use crate::text::{
    bytes_of, lemma_encode_injective, calculate_column_number, calculate_line_number, column_at, extract_span_text, fits,
    line_at, span_fits,
};

verus! {

broadcast use vstd::std_specs::hash::group_hash_axioms;

/// How serious a diagnostic is.
#[derive(Clone, Copy, Debug, PartialEq, Eq, Structural)]
pub enum ErrorSeverity {
    Error,
    Warning,
    Info,
}

pub open spec fn severity_color(s: ErrorSeverity) -> (u8, u8, u8) {
    match s {
        ErrorSeverity::Error => (255, 0, 0),
        ErrorSeverity::Warning => (255, 165, 0),
        ErrorSeverity::Info => (0, 150, 255),
    }
}

pub open spec fn severity_class(s: ErrorSeverity) -> Seq<char> {
    match s {
        ErrorSeverity::Error => "error"@,
        ErrorSeverity::Warning => "warning"@,
        ErrorSeverity::Info => "info"@,
    }
}

impl ErrorSeverity {
    /// The colour of this severity: red, orange or blue.
    pub fn color(&self) -> (r: (u8, u8, u8))
        ensures
            r == severity_color(*self),
    {
        match self {
            ErrorSeverity::Error => (255, 0, 0),
            ErrorSeverity::Warning => (255, 165, 0),
            ErrorSeverity::Info => (0, 150, 255),
        }
    }

    /// The CSS class of this severity.
    pub fn css_class(&self) -> (r: &'static str)
        ensures
            r@ == severity_class(*self),
    {
        match self {
            ErrorSeverity::Error => "error",
            ErrorSeverity::Warning => "warning",
            ErrorSeverity::Info => "info",
        }
    }
}

/// A message attached to a byte span of a source text.
///
/// Line and column are not stored: they are computed from the span and the
/// source text whenever they are needed.
#[derive(Clone, Debug)]
pub struct ErrorAnnotation {
    span: SourceSpan,
    message: String,
    severity: ErrorSeverity,
}

impl View for ErrorAnnotation {
    type V = (SourceSpan, Seq<char>, ErrorSeverity);

    closed spec fn view(&self) -> (SourceSpan, Seq<char>, ErrorSeverity) {
        (self.span, self.message@, self.severity)
    }
}

/// `n` copies of `c`.
pub open spec fn repeat(c: char, n: nat) -> Seq<char> {
    Seq::new(n, |i: int| c)
}

/// The escape sequence that starts the underline for severity `s`.
pub open spec fn underline_code(s: ErrorSeverity) -> Seq<char> {
    let (r, g, b) = severity_color(s);
    sgr(seq![rgb_param("38"@, r, g, b), "4"@])
}

/// The text of 1-based line `k` of `src`, or nothing when there is no such
/// line.
pub open spec fn line_text(src: Seq<char>, k: int) -> Seq<char> {
    let ls = lines_of(src);
    if 1 <= k <= ls.len() {
        ls[k - 1]
    } else {
        Seq::<char>::empty()
    }
}

/// Number of `^` under annotation `a` in `src`, before the minimum of one.
pub open spec fn underline_width(src: Seq<char>, a: (SourceSpan, Seq<char>, ErrorSeverity)) -> int {
    let b = bytes_of(src);
    let line = line_at(b, a.0.start as int);
    let col = column_at(b, a.0.start as int);
    let end_col = column_at(b, a.0.end as int);
    let text = line_text(src, line);
    if line == line_at(b, a.0.end as int) {
        if end_col > col {
            end_col - col
        } else {
            0
        }
    } else if text.len() > col - 1 {
        text.len() - (col - 1)
    } else {
        0
    }
}

/// The terminal rendering of annotation `a` over `src`: the line holding
/// the start of the span, an underline of `^` from the start column, and the
/// message.
pub open spec fn console_rendering(src: Seq<char>, a: (SourceSpan, Seq<char>, ErrorSeverity)) -> Seq<
    char,
> {
    let b = bytes_of(src);
    let line = line_at(b, a.0.start as int);
    let col = column_at(b, a.0.start as int);
    let w = underline_width(src, a);
    let code = underline_code(a.2);
    line_text(src, line) + "\n"@ + repeat(' ', (col - 1) as nat) + code + repeat(
        '^',
        if w > 0 {
            w as nat
        } else {
            1
        },
    ) + "\x1b[0m"@ + "\n"@ + code + a.1 + "\n"@
}

/// The popover id of annotation number `id`.
pub open spec fn popover_id(id: nat) -> Seq<char> {
    "error-"@ + decimal(id)
}

/// The HTML rendering of annotation `a` over `src` with number `id`.
pub open spec fn html_rendering(src: Seq<char>, a: (SourceSpan, Seq<char>, ErrorSeverity), id: nat) -> Seq<
    char,
> {
    let b = bytes_of(src);
    if !span_fits(b, a.0) {
        Seq::<char>::empty()
    } else {
        let cls = severity_class(a.2);
        let pid = popover_id(id);
        "<span class=\"error-highlight "@ + cls + "\" popovertarget=\""@ + pid
            + "\" aria-describedby=\""@ + pid + "\">\n  <span class=\"squiggle\" aria-label=\""@
            + cls + "\">"@ + html_text(span_chars(src, a.0)) + "</span>\n</span>\n<div id=\""@ + pid
            + "\" popover role=\"alert\">\n  <div class=\"error-message\">"@ + html_text(a.1)
            + "</div>\n</div>"@
    }
}

/// The characters of `src` within `span`, for a span that fits.
pub open spec fn span_chars(src: Seq<char>, span: SourceSpan) -> Seq<char> {
    choose|t: Seq<char>|
        bytes_of(t) == bytes_of(src).subrange(span.start as int, span.end as int)
}

/// The spans of an annotation lie within `src`.
pub open spec fn within(src: Seq<char>, a: (SourceSpan, Seq<char>, ErrorSeverity)) -> bool {
    a.0.start <= bytes_of(src).len() && a.0.end <= bytes_of(src).len()
}

/// All annotations rendered for the terminal, each followed by a blank line.
pub open spec fn all_console(src: Seq<char>, anns: Seq<(SourceSpan, Seq<char>, ErrorSeverity)>) -> Seq<
    char,
>
    decreases anns.len(),
{
    if anns.len() == 0 {
        Seq::<char>::empty()
    } else {
        all_console(src, anns.drop_last()) + console_rendering(src, anns.last()) + "\n"@
    }
}

fn repeat_char(out: &mut String, c: char, n: usize)
    ensures
        final(out)@ == old(out)@ + repeat(c, n as nat),
{
    let ghost s0 = out@;
    let mut i: usize = 0;
    while i < n
        invariant
            i <= n,
            out@ == s0 + repeat(c, i as nat),
        decreases n - i,
    {
        push_char(out, c);
        i = i + 1;
        assert(out@ =~= s0 + repeat(c, i as nat));
    }
}

impl ErrorAnnotation {
    pub fn new(span: SourceSpan, message: String, severity: ErrorSeverity) -> (r: ErrorAnnotation)
        ensures
            r@ == (span, message@, severity),
    {
        ErrorAnnotation { span, message, severity }
    }

    pub fn span(&self) -> (r: SourceSpan)
        ensures
            r == self@.0,
    {
        self.span
    }

    pub fn message(&self) -> (r: &str)
        ensures
            r@ == self@.1,
    {
        self.message.as_str()
    }

    pub fn severity(&self) -> (r: ErrorSeverity)
        ensures
            r == self@.2,
    {
        self.severity
    }

    /// 1-based line where the annotation starts. The span must start within
    /// `source`.
    pub fn line(&self, source: &str) -> (r: usize)
        requires
            fits(source@),
            self@.0.start <= source.spec_bytes().len(),
        ensures
            r == line_at(source.spec_bytes(), self@.0.start as int),
    {
        calculate_line_number(source, self.span.start as usize)
    }

    /// 1-based column, in characters, where the annotation starts. The span
    /// must start within `source`.
    pub fn column(&self, source: &str) -> (r: usize)
        requires
            fits(source@),
            self@.0.start <= source.spec_bytes().len(),
        ensures
            r == column_at(source.spec_bytes(), self@.0.start as int),
    {
        calculate_column_number(source, self.span.start as usize)
    }

    /// 1-based line where the annotation ends. The span must end within
    /// `source`.
    pub fn end_line(&self, source: &str) -> (r: usize)
        requires
            fits(source@),
            self@.0.end <= source.spec_bytes().len(),
        ensures
            r == line_at(source.spec_bytes(), self@.0.end as int),
    {
        calculate_line_number(source, self.span.end as usize)
    }

    /// 1-based column, in characters, where the annotation ends. The span
    /// must end within `source`.
    pub fn end_column(&self, source: &str) -> (r: usize)
        requires
            fits(source@),
            self@.0.end <= source.spec_bytes().len(),
        ensures
            r == column_at(source.spec_bytes(), self@.0.end as int),
    {
        calculate_column_number(source, self.span.end as usize)
    }

    /// Terminal rendering: the line holding the start of the span, an
    /// underline of `^` in the severity's colour from the start column
    /// (at least one wide), and the message on the next line.
    pub fn render_console(&self, source: &str) -> (r: String)
        requires
            fits(source@),
            within(source@, self@),
        ensures
            r@ == console_rendering(source@, self@),
    {
        let line_num = self.line(source);
        let col = self.column(source);
        let end_col = self.end_column(source);
        let end_line = self.end_line(source);
        let chars = chars_of(source);
        let lines = split_lines(&chars);
        let empty: Vec<char> = Vec::new();
        let error_line: &Vec<char> = if line_num <= lines.len() {
            &lines[line_num - 1]
        } else {
            &empty
        };
        assert(error_line@ == line_text(source@, line_num as int));
        let (r, g, b) = self.severity.color();
        let code = AnsiBuilder::new().fg_rgb(r, g, b).underline().build();
        assert(code@ == underline_code(self.severity)) by {
            assert(seq![rgb_param("38"@, r, g, b), "4"@] =~= Seq::<Seq<char>>::empty().push(
                rgb_param("38"@, r, g, b),
            ).push("4"@));
        }
        let underline_start = col - 1;
        let width = if line_num == end_line {
            if end_col > col {
                end_col - col
            } else {
                0
            }
        } else if error_line.len() > underline_start {
            error_line.len() - underline_start
        } else {
            0
        };
        let mut out = String::new();
        push_chars(&mut out, error_line);
        push_str(&mut out, "\n");
        repeat_char(&mut out, ' ', underline_start);
        push_str(&mut out, code.as_str());
        repeat_char(
            &mut out,
            '^',
            if width > 0 {
                width
            } else {
                1
            },
        );
        push_str(&mut out, AnsiBuilder::RESET);
        push_str(&mut out, "\n");
        push_str(&mut out, code.as_str());
        push_str(&mut out, self.message.as_str());
        push_str(&mut out, "\n");
        assert(AnsiBuilder::RESET@ == "\x1b[0m"@);
        out
    }

    /// HTML rendering: the annotated text in a `<span>` with the severity's
    /// CSS class and an accessible label, linked by the id `error-<id>` to a
    /// popover that holds the escaped message. Empty when the span cannot be
    /// cut out of `source`.
    pub fn render_html(&self, source: &str, error_id: usize) -> (r: String)
        requires
            fits(source@),
        ensures
            r@ == html_rendering(source@, self@, error_id as nat),
    {
        let text = match extract_span_text(source, self.span) {
            Ok(t) => t,
            Err(_) => {
                return String::new();
            },
        };
        proof {
            let t = span_chars(source@, self.span);
            assert(bytes_of(text@) == bytes_of(source@).subrange(
                self.span.start as int,
                self.span.end as int,
            ));
            lemma_encode_injective(text@, t);
        }
        let cls = self.severity.css_class();
        let mut pid = String::new();
        push_str(&mut pid, "error-");
        push_decimal(&mut pid, error_id);
        let escaped_text = escape_text(text.as_str());
        let escaped_message = escape_text(self.message.as_str());
        let mut out = String::new();
        push_str(&mut out, "<span class=\"error-highlight ");
        push_str(&mut out, cls);
        push_str(&mut out, "\" popovertarget=\"");
        push_str(&mut out, pid.as_str());
        push_str(&mut out, "\" aria-describedby=\"");
        push_str(&mut out, pid.as_str());
        push_str(&mut out, "\">\n  <span class=\"squiggle\" aria-label=\"");
        push_str(&mut out, cls);
        push_str(&mut out, "\">");
        push_str(&mut out, escaped_text.as_str());
        push_str(&mut out, "</span>\n</span>\n<div id=\"");
        push_str(&mut out, pid.as_str());
        push_str(&mut out, "\" popover role=\"alert\">\n  <div class=\"error-message\">");
        push_str(&mut out, escaped_message.as_str());
        push_str(&mut out, "</div>\n</div>");
        out
    }
}

/// The annotations as plain values.
pub open spec fn annotation_views(anns: Seq<ErrorAnnotation>) -> Seq<
    (SourceSpan, Seq<char>, ErrorSeverity),
> {
    anns.map_values(|a: ErrorAnnotation| a@)
}

/// Renders every annotation for the terminal, in order, each followed by a
/// blank line. Overlapping annotations are all rendered in full.
pub fn render_errors_console(source: &str, annotations: &[ErrorAnnotation]) -> (r: String)
    requires
        fits(source@),
        forall|i: int| 0 <= i < annotations@.len() ==> within(source@, #[trigger] annotations@[i]@),
    ensures
        r@ == all_console(source@, annotation_views(annotations@)),
{
    let ghost anns = annotation_views(annotations@);
    let mut out = String::new();
    let mut i: usize = 0;
    while i < annotations.len()
        invariant
            i <= annotations@.len(),
            fits(source@),
            anns == annotation_views(annotations@),
            forall|k: int|
                0 <= k < annotations@.len() ==> within(source@, #[trigger] annotations@[k]@),
            out@ == all_console(source@, anns.take(i as int)),
        decreases annotations@.len() - i,
    {
        let piece = annotations[i].render_console(source);
        push_str(&mut out, piece.as_str());
        push_str(&mut out, "\n");
        i = i + 1;
        assert(anns.take(i as int).drop_last() =~= anns.take(i - 1));
    }
    assert(anns.take(i as int) =~= anns);
    out
}

/// Renders every annotation as HTML, keyed by its 1-based position.
pub fn render_errors_html(source: &str, annotations: &[ErrorAnnotation]) -> (r: HashMap<
    usize,
    String,
>)
    requires
        fits(source@),
        annotations@.len() < usize::MAX,
    ensures
        r@.dom() == Set::new(|k: usize| 1 <= k <= annotations@.len()),
        forall|k: usize|
            1 <= k <= annotations@.len() ==> #[trigger] r@[k]@ == html_rendering(
                source@,
                annotations@[k - 1]@,
                k as nat,
            ),
{
    let mut map: HashMap<usize, String> = HashMap::new();
    let mut i: usize = 0;
    while i < annotations.len()
        invariant
            i <= annotations@.len() < usize::MAX,
            fits(source@),
            map@.dom() == Set::new(|k: usize| 1 <= k <= i),
            forall|k: usize|
                1 <= k <= i ==> #[trigger] map@[k]@ == html_rendering(
                    source@,
                    annotations@[k - 1]@,
                    k as nat,
                ),
        decreases annotations@.len() - i,
    {
        let id = i + 1;
        let html = annotations[i].render_html(source, id);
        map.insert(id, html);
        i = i + 1;
        assert(map@.dom() =~= Set::new(|k: usize| 1 <= k <= i));
    }
    map
}

} // verus!
