//! Code context around a diagnostic: the enclosing scope, its text, and the
//! excerpt of it that is worth showing.
use vstd::prelude::*;
use vstd::string::*;

use crate::chars::{chars_of, decimal, push_decimal, push_str};
use crate::error::HighlightError;
use crate::lines::{
    contains, contains_chars, join_chars, join_lines, lines_of, split_lines, trim, trim_chars, views,
};
use crate::span::SourceSpan;
use crate::text::{bytes_of, count_byte, extract_span_text, fits, invalid_span_at, span_fits};

verus! {

/// Scope bodies with at least this many lines are shortened for display.
pub const TRUNCATION_THRESHOLD: usize = 15;

/// Lines scanned above and below the error in module-level code.
pub const MODULE_CONTEXT_LINES: usize = 3;

/// The kind of scope that holds a diagnostic.
#[derive(Clone, Copy, Debug, PartialEq, Eq, Structural)]
pub enum ScopeType {
    /// A standalone function.
    Function,
    /// A class method, or a class itself.
    Method,
    /// A type alias or an interface.
    TypeUtility,
    /// No declared scope: the whole file.
    ModuleLevel,
}

/// What was left out of a shortened excerpt.
#[derive(Clone, Debug)]
pub struct TruncationInfo {
    /// Lines of the scope text.
    pub original_line_count: usize,
    /// Lines of the excerpt, omission markers included.
    pub displayed_line_count: usize,
    /// Each omitted run of lines, as 1-based inclusive (first, last) line
    /// numbers within the scope text.
    pub truncated_sections: Vec<(usize, usize)>,
}

/// The code context of one diagnostic.
#[derive(Clone, Debug)]
pub struct CodeContext {
    /// The whole text of the enclosing scope.
    pub full_code: String,
    /// The excerpt to show.
    pub display_code: String,
    /// The kind of the enclosing scope.
    pub scope_type: ScopeType,
    /// The scope's name (`Class::method` for methods of a class).
    pub scope_name: String,
    /// Present when the excerpt leaves lines out of a function-like scope.
    pub truncation_info: Option<TruncationInfo>,
}

/// A declaration that can enclose a diagnostic, as found by a parser.
#[derive(Clone, Debug)]
pub enum ScopeNode {
    Function { name: String, span: SourceSpan },
    Method { name: String, span: SourceSpan, class_name: Option<String> },
    Class { name: String, span: SourceSpan },
    TypeUtility { name: String, span: SourceSpan },
}

/// The scope chosen for a diagnostic.
#[derive(Clone, Debug)]
pub struct ScopeInfo {
    pub span: SourceSpan,
    pub scope_type: ScopeType,
    pub name: String,
}

// ---------------------------------------------------------------------------
// Model
// ---------------------------------------------------------------------------

/// The omission marker for `n` left-out lines.
pub open spec fn marker(n: nat) -> Seq<char> {
    "┄┄┄ ("@ + decimal(n) + " lines omitted) ┄┄┄"@
}

/// The 0-based line of the diagnostic within the scope text `b` of `n`
/// lines, before clamping.
pub open spec fn relative_line(b: Seq<u8>, n: nat, scope: SourceSpan, err: SourceSpan) -> int {
    if err.start < scope.start {
        0
    } else if err.start - scope.start >= b.len() {
        if n == 0 {
            0
        } else {
            n - 1
        }
    } else {
        count_byte(b.take(err.start - scope.start), 10u8) as int
    }
}

/// The 0-based line of the diagnostic, never past the last line.
pub open spec fn error_line(b: Seq<u8>, n: nat, scope: SourceSpan, err: SourceSpan) -> int {
    let r = relative_line(b, n, scope, err);
    if n > 0 && r > n - 1 {
        n - 1
    } else {
        r
    }
}

/// First line of the window around the error (line 0 is always shown).
pub open spec fn context_start(e: int) -> int {
    if e - 2 > 1 {
        e - 2
    } else {
        1
    }
}

pub open spec fn window_start(e: int) -> int {
    if e >= 2 {
        e - 2
    } else {
        0
    }
}

pub open spec fn window_end(e: int, n: int) -> int {
    if e + 2 < n - 1 {
        e + 2
    } else {
        n - 1
    }
}

/// The lines shown for a long function-like scope with the error on line
/// `e`: the signature, a marker, the window of two lines around the error, a
/// marker, and the closing line.
pub open spec fn function_lines(ls: Seq<Seq<char>>, e: int) -> Seq<Seq<char>> {
    let n = ls.len() as int;
    let cs = context_start(e);
    let we = window_end(e, n);
    seq![ls[0]] + (if cs > 1 {
        seq![marker((cs - 1) as nat)]
    } else {
        Seq::<Seq<char>>::empty()
    }) + ls.subrange(window_start(e), we + 1) + (if we < n - 2 {
        seq![marker((n - 2 - we) as nat)]
    } else {
        Seq::<Seq<char>>::empty()
    }) + seq![ls[n - 1]]
}

/// The omitted runs, 1-based and inclusive, matching the markers of
/// `function_lines`.
pub open spec fn function_sections(n: int, e: int) -> Seq<(usize, usize)> {
    let cs = context_start(e);
    let we = window_end(e, n);
    (if cs > 1 {
        seq![(2usize, cs as usize)]
    } else {
        Seq::<(usize, usize)>::empty()
    }) + (if we < n - 2 {
        seq![((we + 2) as usize, (n - 1) as usize)]
    } else {
        Seq::<(usize, usize)>::empty()
    })
}

/// Whether a (trimmed) line opens a named block.
pub open spec fn block_start(l: Seq<char>) -> bool {
    let t = trim(l);
    &&& t.len() > 0
    &&& t.last() == '{'
    &&& (contains(t, "function "@) || contains(t, "class "@) || contains(t, "interface "@)
        || contains(t, "type "@) || contains(t, "enum "@))
}

/// Upward scan from line `start`: at most three more lines, stopping before
/// a blank line and just after a line that starts with `}`.
pub open spec fn scan_up(ls: Seq<Seq<char>>, start: int, seen: int) -> int
    decreases start,
{
    if start <= 0 || seen >= MODULE_CONTEXT_LINES {
        start
    } else {
        let l = trim(ls[start - 1]);
        if l.len() == 0 {
            start
        } else if l[0] == '}' {
            start - 1
        } else {
            scan_up(ls, start - 1, seen + 1)
        }
    }
}

/// Downward scan from line `end`: at most three more lines, stopping before a
/// blank line or a line that opens a named block.
pub open spec fn scan_down(ls: Seq<Seq<char>>, end: int, seen: int) -> int
    decreases ls.len() - end,
{
    if end >= ls.len() - 1 || seen >= MODULE_CONTEXT_LINES {
        end
    } else {
        let l = trim(ls[end + 1]);
        if l.len() == 0 || block_start(l) {
            end
        } else {
            scan_down(ls, end + 1, seen + 1)
        }
    }
}

/// The lines shown for module-level code with the error on line `e`.
pub open spec fn module_lines(ls: Seq<Seq<char>>, e: int) -> Seq<Seq<char>> {
    ls.subrange(scan_up(ls, e, 0), scan_down(ls, e, 0) + 1)
}

/// Truncation info as plain values.
pub open spec fn info_view(o: Option<TruncationInfo>) -> Option<(usize, usize, Seq<(usize, usize)>)> {
    match o {
        Some(i) => Some((i.original_line_count, i.displayed_line_count, i.truncated_sections@)),
        None => None,
    }
}

/// The excerpt, and what it leaves out, for scope text `text` of kind `kind`.
pub open spec fn truncation_of(
    text: Seq<char>,
    err: SourceSpan,
    scope: SourceSpan,
    kind: ScopeType,
) -> (Seq<char>, Option<(usize, usize, Seq<(usize, usize)>)>) {
    let ls = lines_of(text);
    let n = ls.len();
    let e = error_line(bytes_of(text), n, scope, err);
    match kind {
        ScopeType::ModuleLevel => if n == 0 {
            (Seq::<char>::empty(), None)
        } else {
            (join_lines(module_lines(ls, e)), None)
        },
        _ => if n < TRUNCATION_THRESHOLD {
            (text, None)
        } else {
            let shown = function_lines(ls, e);
            (
                join_lines(shown),
                Some((n as usize, shown.len() as usize, function_sections(n as int, e))),
            )
        },
    }
}

pub open spec fn node_span(n: ScopeNode) -> SourceSpan {
    match n {
        ScopeNode::Function { span, .. } => span,
        ScopeNode::Method { span, .. } => span,
        ScopeNode::Class { span, .. } => span,
        ScopeNode::TypeUtility { span, .. } => span,
    }
}

/// Classes count as method scopes: a diagnostic in a class body but outside
/// its methods is reported against the class.
pub open spec fn node_type(n: ScopeNode) -> ScopeType {
    match n {
        ScopeNode::Function { .. } => ScopeType::Function,
        ScopeNode::Method { .. } => ScopeType::Method,
        ScopeNode::Class { .. } => ScopeType::Method,
        ScopeNode::TypeUtility { .. } => ScopeType::TypeUtility,
    }
}

pub open spec fn node_name(n: ScopeNode) -> Seq<char> {
    match n {
        ScopeNode::Function { name, .. } => name@,
        ScopeNode::Method { name, class_name, .. } => match class_name {
            Some(c) => c@ + "::"@ + name@,
            None => name@,
        },
        ScopeNode::Class { name, .. } => name@,
        ScopeNode::TypeUtility { name, .. } => name@,
    }
}

pub open spec fn span_size(s: SourceSpan) -> int {
    if s.start <= s.end {
        s.end - s.start
    } else {
        0
    }
}

/// Whether scope `n` contains the diagnostic span `d`, both ends included.
pub open spec fn encloses(n: ScopeNode, d: SourceSpan) -> bool {
    node_span(n).start <= d.start && d.end <= node_span(n).end
}

/// Scope `i` is the most specific one around `d`: no enclosing scope is
/// smaller, and every earlier enclosing scope is larger.
pub open spec fn is_best(nodes: Seq<ScopeNode>, d: SourceSpan, i: int) -> bool {
    &&& 0 <= i < nodes.len()
    &&& encloses(nodes[i], d)
    &&& forall|j: int|
        0 <= j < nodes.len() && encloses(#[trigger] nodes[j], d) ==> span_size(node_span(nodes[i]))
            <= span_size(node_span(nodes[j]))
    &&& forall|j: int|
        0 <= j < i && encloses(#[trigger] nodes[j], d) ==> span_size(node_span(nodes[i]))
            < span_size(node_span(nodes[j]))
}

/// The scope chosen for `d`, as (span, kind, name).
pub open spec fn located(nodes: Seq<ScopeNode>, d: SourceSpan, source_len: nat) -> (
    SourceSpan,
    ScopeType,
    Seq<char>,
) {
    if exists|i: int| is_best(nodes, d, i) {
        let i = choose|i: int| is_best(nodes, d, i);
        (node_span(nodes[i]), node_type(nodes[i]), node_name(nodes[i]))
    } else {
        (SourceSpan { start: 0, end: source_len as u32 }, ScopeType::ModuleLevel, "global"@)
    }
}

// ---------------------------------------------------------------------------
// Scope location
// ---------------------------------------------------------------------------

impl ScopeNode {
    pub fn span(&self) -> (r: SourceSpan)
        ensures
            r == node_span(*self),
    {
        match self {
            ScopeNode::Function { span, .. } => *span,
            ScopeNode::Method { span, .. } => *span,
            ScopeNode::Class { span, .. } => *span,
            ScopeNode::TypeUtility { span, .. } => *span,
        }
    }

    pub fn scope_type(&self) -> (r: ScopeType)
        ensures
            r == node_type(*self),
    {
        match self {
            ScopeNode::Function { .. } => ScopeType::Function,
            ScopeNode::Method { .. } => ScopeType::Method,
            ScopeNode::Class { .. } => ScopeType::Method,
            ScopeNode::TypeUtility { .. } => ScopeType::TypeUtility,
        }
    }

    /// The name to report: `Class::method` for a method of a class.
    pub fn qualified_name(&self) -> (r: String)
        ensures
            r@ == node_name(*self),
    {
        match self {
            ScopeNode::Function { name, .. } => name.clone(),
            ScopeNode::Method { name, class_name, .. } => match class_name {
                Some(c) => {
                    let mut s = c.clone();
                    push_str(&mut s, "::");
                    push_str(&mut s, name.as_str());
                    s
                },
                None => name.clone(),
            },
            ScopeNode::Class { name, .. } => name.clone(),
            ScopeNode::TypeUtility { name, .. } => name.clone(),
        }
    }
}

proof fn lemma_best_unique(nodes: Seq<ScopeNode>, d: SourceSpan, i: int, k: int)
    requires
        is_best(nodes, d, i),
        is_best(nodes, d, k),
    ensures
        i == k,
{
    if i < k {
        assert(encloses(nodes[i], d));
    } else if k < i {
        assert(encloses(nodes[k], d));
    }
}

/// The most specific declared scope that contains `error_span`, or the whole
/// file (`source_len` bytes) as a module-level scope named `global`.
pub fn find_containing_scope(error_span: SourceSpan, scopes: &Vec<ScopeNode>, source_len: usize) -> (r: ScopeInfo)
    ensures
        (r.span, r.scope_type, r.name@) == located(scopes@, error_span, source_len as nat),
{
    let ghost nodes = scopes@;
    let mut best: Option<usize> = None;
    let mut i: usize = 0;
    while i < scopes.len()
        invariant
            i <= nodes.len(),
            nodes == scopes@,
            match best {
                Some(b) => is_best(nodes.take(i as int), error_span, b as int),
                None => forall|j: int| 0 <= j < i ==> !encloses(#[trigger] nodes[j], error_span),
            },
        decreases nodes.len() - i,
    {
        let ghost pre = nodes.take(i as int);
        let ghost post = nodes.take(i + 1);
        assert(forall|j: int| 0 <= j < i ==> post[j] == pre[j]);
        let sp = scopes[i].span();
        if sp.contains_inclusive(error_span) {
            match best {
                Some(b) => {
                    if scopes[b].span().size() > sp.size() {
                        best = Some(i);
                    }
                },
                None => {
                    best = Some(i);
                },
            }
        }
        i = i + 1;
        assert(post =~= nodes.take(i as int));
    }
    assert(nodes.take(i as int) =~= nodes);
    match best {
        Some(b) => {
            proof {
                assert forall|k: int| is_best(nodes, error_span, k) implies k == b by {
                    lemma_best_unique(nodes, error_span, b as int, k);
                }
            }
            ScopeInfo {
                span: scopes[b].span(),
                scope_type: scopes[b].scope_type(),
                name: scopes[b].qualified_name(),
            }
        },
        None => {
            let name = String::from_str("global");
            ScopeInfo {
                span: SourceSpan { start: 0, end: source_len as u32 },
                scope_type: ScopeType::ModuleLevel,
                name,
            }
        },
    }
}

// ---------------------------------------------------------------------------
// Truncation
// ---------------------------------------------------------------------------

fn copy_line(v: &Vec<char>) -> (r: Vec<char>)
    ensures
        r@ == v@,
{
    let mut r: Vec<char> = Vec::new();
    let mut i: usize = 0;
    while i < v.len()
        invariant
            i <= v@.len(),
            r@ == v@.take(i as int),
        decreases v@.len() - i,
    {
        r.push(v[i]);
        i = i + 1;
        assert(r@ =~= v@.take(i as int));
    }
    assert(v@.take(i as int) =~= v@);
    r
}

/// The omission marker line for `n` left-out lines.
fn marker_line(n: usize) -> (r: Vec<char>)
    ensures
        r@ == marker(n as nat),
{
    let mut s = String::new();
    push_str(&mut s, "┄┄┄ (");
    push_decimal(&mut s, n);
    push_str(&mut s, " lines omitted) ┄┄┄");
    chars_of(s.as_str())
}

/// Shortens a long function, method or type scope: signature, a marker for
/// the lines before the error window, two lines either side of the error,
/// a marker for the lines after, and the closing line.
pub fn truncate_function_scope(lines: &Vec<Vec<char>>, error_line: usize, total_lines: usize) -> (r: (
    String,
    Option<TruncationInfo>,
))
    requires
        total_lines == lines@.len(),
        total_lines >= 1,
        error_line < total_lines,
    ensures
        r.0@ == join_lines(function_lines(views(lines@), error_line as int)),
        info_view(r.1) == Some(
            (
                total_lines,
                function_lines(views(lines@), error_line as int).len() as usize,
                function_sections(total_lines as int, error_line as int),
            ),
        ),
{
    let ghost ls = views(lines@);
    let ghost e = error_line as int;
    let ghost n = total_lines as int;
    let mut shown: Vec<Vec<char>> = Vec::new();
    let mut sections: Vec<(usize, usize)> = Vec::new();
    shown.push(copy_line(&lines[0]));
    let cs: usize = if error_line > 3 {
        error_line - 2
    } else {
        1
    };
    if cs > 1 {
        shown.push(marker_line(cs - 1));
        sections.push((2, cs));
    }
    let ghost head = views(shown@);
    assert(head =~= seq![ls[0]] + (if context_start(e) > 1 {
        seq![marker((context_start(e) - 1) as nat)]
    } else {
        Seq::<Seq<char>>::empty()
    }));
    let ws: usize = if error_line >= 2 {
        error_line - 2
    } else {
        0
    };
    let we: usize = if total_lines >= 3 && error_line < total_lines - 3 {
        error_line + 2
    } else {
        total_lines - 1
    };
    assert(we as int == window_end(e, n));
    let mut i: usize = ws;
    while i <= we
        invariant
            ws <= i <= we + 1,
            we < total_lines == lines@.len(),
            ls == views(lines@),
            views(shown@) == head + ls.subrange(ws as int, i as int),
        decreases we + 1 - i,
    {
        let ghost before = shown@;
        let l = copy_line(&lines[i]);
        assert(l@ == ls[i as int]);
        shown.push(l);
        assert(views(shown@) =~= views(before).push(ls[i as int]));
        assert(ls.subrange(ws as int, i + 1) =~= ls.subrange(ws as int, i as int).push(ls[i as int]));
        i = i + 1;
        assert(views(shown@) =~= head + ls.subrange(ws as int, i as int));
    }
    let ghost mid = views(shown@);
    let last = total_lines - 1;
    if total_lines >= 2 && we < total_lines - 2 {
        shown.push(marker_line(last - we - 1));
        sections.push((we + 2, last));
    }
    shown.push(copy_line(&lines[last]));
    assert(views(shown@) =~= function_lines(ls, e));
    assert(sections@ =~= function_sections(n, e));
    let display = join_chars(&shown);
    let count = shown.len();
    (
        display,
        Some(
            TruncationInfo {
                original_line_count: total_lines,
                displayed_line_count: count,
                truncated_sections: sections,
            },
        ),
    )
}

/// Whether a line opens a named block (`function`, `class`, `interface`,
/// `type` or `enum` ending in `{`).
pub fn is_block_start(line: &Vec<char>) -> (r: bool)
    ensures
        r == block_start(line@),
{
    let t = trim_chars(line);
    if t.len() == 0 || t[t.len() - 1] != '{' {
        return false;
    }
    contains_chars(&t, &chars_of("function ")) || contains_chars(&t, &chars_of("class "))
        || contains_chars(&t, &chars_of("interface ")) || contains_chars(&t, &chars_of("type "))
        || contains_chars(&t, &chars_of("enum "))
}

/// First line shown above the error in module-level code.
pub fn find_context_start(lines: &Vec<Vec<char>>, error_line: usize) -> (r: usize)
    requires
        error_line < lines@.len(),
    ensures
        r == scan_up(views(lines@), error_line as int, 0),
{
    let ghost ls = views(lines@);
    let mut start = error_line;
    let mut seen: usize = 0;
    while start > 0 && seen < MODULE_CONTEXT_LINES
        invariant
            start <= error_line < lines@.len(),
            ls == views(lines@),
            scan_up(ls, start as int, seen as int) == scan_up(ls, error_line as int, 0),
        decreases start,
    {
        let t = trim_chars(&lines[start - 1]);
        if t.len() == 0 {
            return start;
        }
        if t[0] == '}' {
            return start - 1;
        }
        start = start - 1;
        seen = seen + 1;
    }
    start
}

/// Last line shown below the error in module-level code.
pub fn find_context_end(lines: &Vec<Vec<char>>, error_line: usize, total_lines: usize) -> (r: usize)
    requires
        total_lines == lines@.len(),
        error_line < total_lines,
    ensures
        r == scan_down(views(lines@), error_line as int, 0),
        error_line <= r < total_lines,
{
    let ghost ls = views(lines@);
    let mut end = error_line;
    let mut seen: usize = 0;
    while end < total_lines - 1 && seen < MODULE_CONTEXT_LINES
        invariant
            error_line <= end < total_lines == lines@.len(),
            ls == views(lines@),
            scan_down(ls, end as int, seen as int) == scan_down(ls, error_line as int, 0),
        decreases total_lines - end,
    {
        let t = trim_chars(&lines[end + 1]);
        if t.len() == 0 || is_block_start(&t) {
            return end;
        }
        end = end + 1;
        seen = seen + 1;
    }
    end
}

proof fn lemma_scan_up_range(ls: Seq<Seq<char>>, start: int, seen: int)
    requires
        0 <= start < ls.len(),
    ensures
        0 <= scan_up(ls, start, seen) <= start,
    decreases start,
{
    if start > 0 && seen < MODULE_CONTEXT_LINES {
        lemma_scan_up_range(ls, start - 1, seen + 1);
    }
}

/// Module-level excerpt: the lines from `find_context_start` to
/// `find_context_end`, with no markers and no truncation info.
pub fn truncate_module_scope(lines: &Vec<Vec<char>>, error_line: usize, total_lines: usize) -> (r: (
    String,
    Option<TruncationInfo>,
))
    requires
        total_lines == lines@.len(),
        error_line < total_lines,
    ensures
        r.0@ == join_lines(module_lines(views(lines@), error_line as int)),
        r.1.is_none(),
{
    let ghost ls = views(lines@);
    let start = find_context_start(lines, error_line);
    let end = find_context_end(lines, error_line, total_lines);
    proof {
        lemma_scan_up_range(ls, error_line as int, 0);
    }
    let mut shown: Vec<Vec<char>> = Vec::new();
    let mut i: usize = start;
    while i <= end
        invariant
            start <= i <= end + 1,
            end < total_lines == lines@.len(),
            ls == views(lines@),
            views(shown@) == ls.subrange(start as int, i as int),
        decreases end + 1 - i,
    {
        let ghost before = shown@;
        let l = copy_line(&lines[i]);
        assert(l@ == ls[i as int]);
        shown.push(l);
        assert(views(shown@) =~= views(before).push(ls[i as int]));
        assert(ls.subrange(start as int, i + 1) =~= ls.subrange(start as int, i as int).push(ls[i as int]));
        i = i + 1;
        assert(views(shown@) =~= ls.subrange(start as int, i as int));
    }
    (join_chars(&shown), None)
}

/// The 0-based line of `error_span` within `scope_text`, which starts at
/// `scope_span.start` and has `line_count` lines: 0 when the error starts
/// before the scope, the last line when it starts past the scope's end.
pub fn calculate_relative_line_number(
    scope_text: &str,
    scope_span: SourceSpan,
    error_span: SourceSpan,
    line_count: usize,
) -> (r: usize)
    ensures
        r == relative_line(scope_text.spec_bytes(), line_count as nat, scope_span, error_span),
{
    if error_span.start < scope_span.start {
        return 0;
    }
    let bytes = scope_text.as_bytes();
    let offset = (error_span.start - scope_span.start) as usize;
    if offset >= bytes.len() {
        return if line_count == 0 {
            0
        } else {
            line_count - 1
        };
    }
    count_newlines_before(bytes, offset)
}

fn count_newlines_before(bytes: &[u8], end: usize) -> (n: usize)
    requires
        end <= bytes@.len(),
    ensures
        n == count_byte(bytes@.take(end as int), 10u8),
{
    let mut n: usize = 0;
    let mut i: usize = 0;
    while i < end
        invariant
            i <= end <= bytes@.len(),
            n == count_byte(bytes@.take(i as int), 10u8),
            n <= i,
        decreases end - i,
    {
        assert(bytes@.take(i + 1).drop_last() =~= bytes@.take(i as int));
        if bytes[i] == 10u8 {
            n = n + 1;
        }
        i = i + 1;
    }
    n
}

/// The excerpt of `full_code` to show for a diagnostic at `error_span`,
/// where `full_code` is the text of a scope of kind `scope_type` at
/// `scope_span`.
///
/// Function, method and type scopes under fifteen lines are shown whole;
/// longer ones are shortened around the error with omission markers and
/// truncation info. Module-level code always shows only the bounded window
/// around the error, without markers or info.
pub fn apply_truncation(
    full_code: &str,
    error_span: SourceSpan,
    scope_span: SourceSpan,
    scope_type: ScopeType,
) -> (r: (String, Option<TruncationInfo>))
    ensures
        (r.0@, info_view(r.1)) == truncation_of(full_code@, error_span, scope_span, scope_type),
{
    let chars = chars_of(full_code);
    let lines = split_lines(&chars);
    let n = lines.len();
    let rel = calculate_relative_line_number(full_code, scope_span, error_span, n);
    let e = if n > 0 && rel > n - 1 {
        n - 1
    } else {
        rel
    };
    match scope_type {
        ScopeType::ModuleLevel => {
            if n == 0 {
                (String::new(), None)
            } else {
                truncate_module_scope(&lines, e, n)
            }
        },
        _ => {
            if n < TRUNCATION_THRESHOLD {
                (full_code.to_owned(), None)
            } else {
                truncate_function_scope(&lines, e, n)
            }
        },
    }
}

// ---------------------------------------------------------------------------
// Entry point
// ---------------------------------------------------------------------------

/// The code context of a diagnostic at `error_span` in `source`, given the
/// declarations `scopes` found in it.
///
/// Fails with `InvalidSpan` before any scope work when the diagnostic span is
/// inverted, out of bounds, or not on character boundaries (the error then
/// holds the position of its start, clamped into the text); and when the
/// chosen scope's span cannot be cut out of the source.
pub fn extract_code_context(source: &str, error_span: SourceSpan, scopes: &Vec<ScopeNode>) -> (r:
    Result<CodeContext, HighlightError>)
    requires
        fits(source@),
    ensures
        !span_fits(source.spec_bytes(), error_span) ==> r == Err::<CodeContext, HighlightError>(
            invalid_span_at(source.spec_bytes(), error_span.start as int),
        ),
        span_fits(source.spec_bytes(), error_span) ==> ({
            let (sp, kind, name) = located(
                scopes@,
                error_span,
                source.spec_bytes().len(),
            );
            match r {
                Ok(ctx) => {
                    &&& span_fits(source.spec_bytes(), sp)
                    &&& bytes_of(ctx.full_code@) == source.spec_bytes().subrange(
                        sp.start as int,
                        sp.end as int,
                    )
                    &&& ctx.scope_type == kind
                    &&& ctx.scope_name@ == name
                    &&& (ctx.display_code@, info_view(ctx.truncation_info)) == truncation_of(
                        ctx.full_code@,
                        error_span,
                        sp,
                        kind,
                    )
                },
                Err(e) => !span_fits(source.spec_bytes(), sp) && e == invalid_span_at(
                    source.spec_bytes(),
                    sp.start as int,
                ),
            }
        }),
{
    if let Err(e) = extract_span_text(source, error_span) {
        return Err(e);
    }
    let info = find_containing_scope(error_span, scopes, source.len());
    let full_code = match extract_span_text(source, info.span) {
        Ok(t) => t,
        Err(e) => {
            return Err(e);
        },
    };
    let (display_code, truncation_info) = apply_truncation(
        full_code.as_str(),
        error_span,
        info.span,
        info.scope_type,
    );
    Ok(
        CodeContext {
            full_code,
            display_code,
            scope_type: info.scope_type,
            scope_name: info.name,
            truncation_info,
        },
    )
}

} // verus!
