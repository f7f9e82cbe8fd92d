//! Styled code segments and their terminal and HTML renderings.
use vstd::prelude::*;

use crate::ansi::{rgb_param, sgr, AnsiBuilder};
use crate::chars::{chars_of, decimal, push_decimal, push_str};
use crate::error::HighlightError;
use crate::html::{escape_text, html_text};
use crate::lines::{lines_of, split_lines};

verus! {

/// Code blocks with more lines than this are not highlighted.
pub const MAX_HIGHLIGHT_LINES: usize = 10_000;

/// A 24-bit colour.
#[derive(Clone, Copy, Debug, PartialEq, Eq, Structural)]
pub struct RgbColor {
    pub r: u8,
    pub g: u8,
    pub b: u8,
}

/// The style of one segment of code.
#[derive(Clone, Copy, Debug)]
pub struct SegmentStyle {
    pub foreground: Option<RgbColor>,
    pub background: Option<RgbColor>,
    pub bold: bool,
    pub italic: bool,
    pub underline: bool,
}

/// A run of code text that shares one style.
#[derive(Clone, Debug)]
pub struct HighlightSegment {
    pub text: String,
    pub style: SegmentStyle,
    /// 1-based line of the segment.
    pub line: usize,
    /// 1-based column, in characters, of the segment's first character.
    pub column: usize,
}

/// Highlighted code: its styled segments in order, and how it was made.
#[derive(Clone, Debug)]
pub struct HighlightedCode {
    pub segments: Vec<HighlightSegment>,
    pub line_count: usize,
    pub language: String,
    pub theme: String,
    /// Spaces put before every line when rendering.
    pub indent_spaces: usize,
}

/// `n` spaces.
pub open spec fn spaces(n: nat) -> Seq<char> {
    Seq::new(n, |i: int| ' ')
}

/// The SGR parameters of a style with foreground colour `fg`.
pub open spec fn style_params(st: SegmentStyle, fg: RgbColor) -> Seq<Seq<char>> {
    let base = seq![rgb_param("38"@, fg.r, fg.g, fg.b)];
    let with_bold = if st.bold {
        base.push("1"@)
    } else {
        base
    };
    let with_italic = if st.italic {
        with_bold.push("3"@)
    } else {
        with_bold
    };
    if st.underline {
        with_italic.push("4"@)
    } else {
        with_italic
    }
}

/// One segment for the terminal: wrapped in escape codes when it has a
/// foreground colour, plain otherwise.
pub open spec fn segment_console(text: Seq<char>, st: SegmentStyle) -> Seq<char> {
    match st.foreground {
        Some(fg) => sgr(style_params(st, fg)) + text + "\x1b[0m"@,
        None => text,
    }
}

/// The CSS declarations of a style, joined with `; `.
pub open spec fn css_parts(st: SegmentStyle) -> Seq<Seq<char>> {
    let base = match st.foreground {
        Some(fg) => seq![
            "color: rgb("@ + decimal(fg.r as nat) + ", "@ + decimal(fg.g as nat) + ", "@
                + decimal(fg.b as nat) + ")"@,
        ],
        None => Seq::<Seq<char>>::empty(),
    };
    let with_bold = if st.bold {
        base.push("font-weight: bold"@)
    } else {
        base
    };
    let with_italic = if st.italic {
        with_bold.push("font-style: italic"@)
    } else {
        with_bold
    };
    if st.underline {
        with_italic.push("text-decoration: underline"@)
    } else {
        with_italic
    }
}

pub open spec fn join_css(ps: Seq<Seq<char>>) -> Seq<char>
    decreases ps.len(),
{
    if ps.len() == 0 {
        Seq::<char>::empty()
    } else if ps.len() == 1 {
        ps[0]
    } else {
        join_css(ps.drop_last()) + "; "@ + ps.last()
    }
}

/// One segment as HTML: escaped, and wrapped in a `<span>` whose style holds
/// the properties that are set, when any of foreground colour, bold, italic
/// or underline is set.
pub open spec fn segment_html(text: Seq<char>, st: SegmentStyle) -> Seq<char> {
    if st.foreground is Some || st.bold || st.italic || st.underline {
        "<span style=\""@ + join_css(css_parts(st)) + "\">"@ + html_text(text) + "</span>"@
    } else {
        html_text(text)
    }
}

pub open spec fn ends_with_newline(t: Seq<char>) -> bool {
    t.len() > 0 && t.last() == '\n'
}

/// Output and line-start flag after rendering the first `i` segments, with
/// `indent` (already in the output format) put before every line when
/// `indent_on`.
pub open spec fn render_state(
    segs: Seq<HighlightSegment>,
    indent: Seq<char>,
    indent_on: bool,
    html: bool,
    i: int,
) -> (Seq<char>, bool)
    decreases i,
{
    if i <= 0 {
        (Seq::<char>::empty(), true)
    } else {
        let (out, at_start) = render_state(segs, indent, indent_on, html, i - 1);
        let seg = segs[i - 1];
        let indented = at_start && indent_on;
        let body = if html {
            segment_html(seg.text@, seg.style)
        } else {
            segment_console(seg.text@, seg.style)
        };
        (
            out + (if indented {
                indent
            } else {
                Seq::<char>::empty()
            }) + body,
            if ends_with_newline(seg.text@) {
                true
            } else if indented {
                false
            } else {
                at_start
            },
        )
    }
}

fn ends_with_newline_exec(s: &String) -> (r: bool)
    ensures
        r == ends_with_newline(s@),
{
    let cs = chars_of(s.as_str());
    cs.len() > 0 && cs[cs.len() - 1] == '\n'
}

fn spaces_text(n: usize) -> (r: String)
    ensures
        r@ == spaces(n as nat),
{
    let mut s = String::new();
    let mut i: usize = 0;
    while i < n
        invariant
            i <= n,
            s@ == spaces(i as nat),
        decreases n - i,
    {
        crate::chars::push_char(&mut s, ' ');
        i = i + 1;
        assert(s@ =~= spaces(i as nat));
    }
    s
}

fn console_segment(seg: &HighlightSegment) -> (r: String)
    ensures
        r@ == segment_console(seg.text@, seg.style),
{
    match seg.style.foreground {
        Some(fg) => {
            let mut b = AnsiBuilder::new().fg_rgb(fg.r, fg.g, fg.b);
            let ghost base = b@;
            if seg.style.bold {
                b = b.bold();
            }
            if seg.style.italic {
                b = b.italic();
            }
            if seg.style.underline {
                b = b.underline();
            }
            assert(b@ =~= style_params(seg.style, fg));
            let mut out = b.build();
            push_str(&mut out, seg.text.as_str());
            push_str(&mut out, AnsiBuilder::RESET);
            out
        },
        None => seg.text.clone(),
    }
}

fn css_text(st: SegmentStyle) -> (r: String)
    ensures
        r@ == join_css(css_parts(st)),
{
    let mut parts: Vec<String> = Vec::new();
    if let Some(fg) = st.foreground {
        let mut c = String::new();
        push_str(&mut c, "color: rgb(");
        push_decimal(&mut c, fg.r as usize);
        push_str(&mut c, ", ");
        push_decimal(&mut c, fg.g as usize);
        push_str(&mut c, ", ");
        push_decimal(&mut c, fg.b as usize);
        push_str(&mut c, ")");
        parts.push(c);
    }
    if st.bold {
        parts.push(String::from_str("font-weight: bold"));
    }
    if st.italic {
        parts.push(String::from_str("font-style: italic"));
    }
    if st.underline {
        parts.push(String::from_str("text-decoration: underline"));
    }
    let ghost ps = parts@.map_values(|s: String| s@);
    assert(ps =~= css_parts(st));
    let mut out = String::new();
    let mut i: usize = 0;
    while i < parts.len()
        invariant
            i <= parts@.len(),
            ps == parts@.map_values(|s: String| s@),
            out@ == join_css(ps.take(i as int)),
        decreases parts@.len() - i,
    {
        let ghost before = out@;
        if i > 0 {
            push_str(&mut out, "; ");
        }
        push_str(&mut out, parts[i].as_str());
        i = i + 1;
        let ghost t = ps.take(i as int);
        assert(t.drop_last() =~= ps.take(i - 1));
        if i > 1 {
            assert(out@ =~= join_css(t.drop_last()) + "; "@ + t.last());
        } else {
            assert(out@ =~= t[0]);
        }
    }
    assert(ps.take(i as int) =~= ps);
    out
}

fn html_segment(seg: &HighlightSegment) -> (r: String)
    ensures
        r@ == segment_html(seg.text@, seg.style),
{
    let text = escape_text(seg.text.as_str());
    if seg.style.foreground.is_some() || seg.style.bold || seg.style.italic
        || seg.style.underline {
        let mut out = String::new();
        push_str(&mut out, "<span style=\"");
        let css = css_text(seg.style);
        push_str(&mut out, css.as_str());
        push_str(&mut out, "\">");
        push_str(&mut out, text.as_str());
        push_str(&mut out, "</span>");
        out
    } else {
        text
    }
}

impl HighlightedCode {
    fn render_with(&self, indent: &String, html: bool) -> (r: String)
        ensures
            r@ == render_state(
                self.segments@,
                indent@,
                self.indent_spaces > 0,
                html,
                self.segments@.len() as int,
            ).0,
    {
        let mut out = String::new();
        let mut line_start = true;
        let mut i: usize = 0;
        while i < self.segments.len()
            invariant
                i <= self.segments@.len(),
                (out@, line_start) == render_state(
                    self.segments@,
                    indent@,
                    self.indent_spaces > 0,
                    html,
                    i as int,
                ),
            decreases self.segments@.len() - i,
        {
            let seg = &self.segments[i];
            if line_start && self.indent_spaces > 0 {
                push_str(&mut out, indent.as_str());
                line_start = false;
            }
            let body = if html {
                html_segment(seg)
            } else {
                console_segment(seg)
            };
            push_str(&mut out, body.as_str());
            if ends_with_newline_exec(&seg.text) {
                line_start = true;
            }
            i = i + 1;
        }
        out
    }

    /// Renders the segments for a terminal, with 24-bit colour escapes, and
    /// `indent_spaces` spaces at the start of every line.
    pub fn render_console(&self) -> (r: String)
        ensures
            r@ == render_state(
                self.segments@,
                spaces(self.indent_spaces as nat),
                self.indent_spaces > 0,
                false,
                self.segments@.len() as int,
            ).0,
    {
        let indent = spaces_text(self.indent_spaces);
        self.render_with(&indent, false)
    }

    /// Renders the segments as escaped HTML inside `<pre><code>`, styled
    /// segments in `<span style=...>`, and `indent_spaces` spaces at the start
    /// of every line.
    pub fn render_html(&self) -> (r: String)
        ensures
            r@ == "<pre><code>"@ + render_state(
                self.segments@,
                html_text(spaces(self.indent_spaces as nat)),
                self.indent_spaces > 0,
                true,
                self.segments@.len() as int,
            ).0 + "</code></pre>"@,
    {
        let plain = spaces_text(self.indent_spaces);
        let indent = escape_text(plain.as_str());
        let body = self.render_with(&indent, true);
        let mut out = String::new();
        push_str(&mut out, "<pre><code>");
        push_str(&mut out, body.as_str());
        push_str(&mut out, "</code></pre>");
        out
    }
}

/// The number of lines of `code`, or `CodeBlockTooLarge` when it is over
/// the highlighting limit.
pub fn check_code_size(code: &str) -> (r: Result<usize, HighlightError>)
    ensures
        lines_of(code@).len() <= MAX_HIGHLIGHT_LINES ==> r == Ok::<usize, HighlightError>(
            lines_of(code@).len() as usize,
        ),
        lines_of(code@).len() > MAX_HIGHLIGHT_LINES ==> r == Err::<usize, HighlightError>(
            HighlightError::CodeBlockTooLarge {
                size: lines_of(code@).len() as usize,
                max: MAX_HIGHLIGHT_LINES,
            },
        ),
{
    let chars = chars_of(code);
    let lines = split_lines(&chars);
    let n = lines.len();
    if n > MAX_HIGHLIGHT_LINES {
        Err(HighlightError::CodeBlockTooLarge { size: n, max: MAX_HIGHLIGHT_LINES })
    } else {
        Ok(n)
    }
}

/// A segment as plain values: text, style, line and column.
pub open spec fn segment_view(s: HighlightSegment) -> (Seq<char>, SegmentStyle, nat, nat) {
    (s.text@, s.style, s.line as nat, s.column as nat)
}

/// Characters in the first `j` pieces of a line.
pub open spec fn chars_before(ps: Seq<(SegmentStyle, String)>, j: int) -> nat
    decreases j,
{
    if j <= 0 {
        0
    } else {
        chars_before(ps, j - 1) + ps[j - 1].1@.len()
    }
}

/// The segments of the first `j` pieces of line `line` (1-based): each
/// starts in the column after the characters of the pieces before it.
pub open spec fn line_segments(ps: Seq<(SegmentStyle, String)>, line: nat, j: int) -> Seq<
    (Seq<char>, SegmentStyle, nat, nat),
>
    decreases j,
{
    if j <= 0 {
        Seq::empty()
    } else {
        line_segments(ps, line, j - 1).push(
            (ps[j - 1].1@, ps[j - 1].0, line, chars_before(ps, j - 1) + 1),
        )
    }
}

/// The segments of the first `k` lines.
pub open spec fn all_segments(lines: Seq<Vec<(SegmentStyle, String)>>, k: int) -> Seq<
    (Seq<char>, SegmentStyle, nat, nat),
>
    decreases k,
{
    if k <= 0 {
        Seq::empty()
    } else {
        all_segments(lines, k - 1) + line_segments(lines[k - 1]@, k as nat, lines[k - 1]@.len() as int)
    }
}

proof fn lemma_chars_before_mono(ps: Seq<(SegmentStyle, String)>, i: int, j: int)
    requires
        0 <= i <= j <= ps.len(),
    ensures
        chars_before(ps, i) <= chars_before(ps, j),
    decreases j - i,
{
    if i < j {
        lemma_chars_before_mono(ps, i, j - 1);
    }
}

/// Numbers the styled pieces of each line, as a tokenizer returns them, into
/// segments with their 1-based line and column.
pub fn assemble_segments(lines: &Vec<Vec<(SegmentStyle, String)>>) -> (r: Vec<HighlightSegment>)
    requires
        lines@.len() < usize::MAX,
        forall|k: int|
            0 <= k < lines@.len() ==> chars_before(#[trigger] lines@[k]@, lines@[k]@.len() as int)
                < usize::MAX,
    ensures
        r@.map_values(|s: HighlightSegment| segment_view(s)) == all_segments(lines@, lines@.len() as int),
{
    let mut out: Vec<HighlightSegment> = Vec::new();
    let mut k: usize = 0;
    while k < lines.len()
        invariant
            k <= lines@.len() < usize::MAX,
            forall|m: int|
                0 <= m < lines@.len() ==> chars_before(#[trigger] lines@[m]@, lines@[m]@.len() as int)
                    < usize::MAX,
            out@.map_values(|s: HighlightSegment| segment_view(s)) == all_segments(lines@, k as int),
        decreases lines@.len() - k,
    {
        let ps = &lines[k];
        let ghost base = out@.map_values(|s: HighlightSegment| segment_view(s));
        let mut col: usize = 1;
        let mut j: usize = 0;
        while j < ps.len()
            invariant
                j <= ps@.len(),
                k < lines@.len() < usize::MAX,
                ps@ == lines@[k as int]@,
                chars_before(ps@, ps@.len() as int) < usize::MAX,
                col == chars_before(ps@, j as int) + 1,
                out@.map_values(|s: HighlightSegment| segment_view(s)) == base + line_segments(
                    ps@,
                    (k + 1) as nat,
                    j as int,
                ),
            decreases ps@.len() - j,
        {
            let ghost before = out@.map_values(|s: HighlightSegment| segment_view(s));
            let text = ps[j].1.clone();
            let n = chars_of(ps[j].1.as_str()).len();
            proof {
                lemma_chars_before_mono(ps@, j + 1, ps@.len() as int);
            }
            out.push(HighlightSegment { text, style: ps[j].0, line: k + 1, column: col });
            assert(out@.map_values(|s: HighlightSegment| segment_view(s)) =~= before.push(
                (ps@[j as int].1@, ps@[j as int].0, (k + 1) as nat, chars_before(ps@, j as int) + 1),
            ));
            col = col + n;
            j = j + 1;
        }
        k = k + 1;
    }
    out
}

} // verus!
