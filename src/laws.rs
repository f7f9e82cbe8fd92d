//! Properties of context extraction that relate several definitions.
use vstd::prelude::*;

use crate::code_context::{
    context_start, encloses, function_lines, marker, function_sections, is_best, located, module_lines,
    scan_down, scan_up, truncation_of, window_end, window_start, ScopeNode, ScopeType,
    MODULE_CONTEXT_LINES, TRUNCATION_THRESHOLD,
};
use crate::lines::{join_lines, lines_of, split_newlines};
use crate::span::SourceSpan;
use crate::text::bytes_of;

verus! {

proof fn lemma_split_len(s: Seq<char>)
    ensures
        split_newlines(s).len() >= 1,
        split_newlines(s).len() == 1 ==> split_newlines(s)[0] == s,
    decreases s.len(),
{
    if s.len() > 0 {
        lemma_split_len(s.drop_last());
        let p = split_newlines(s.drop_last());
        if s.last() != '\n' && p.len() == 1 {
            assert(p[0].push(s.last()) =~= s);
        }
    }
}

/// A non-empty text has at least one line.
pub proof fn lemma_nonempty_has_lines(s: Seq<char>)
    requires
        s.len() > 0,
    ensures
        lines_of(s).len() >= 1,
{
    lemma_split_len(s);
}

proof fn lemma_join_nonempty(ls: Seq<Seq<char>>)
    requires
        ls.len() >= 2 || (ls.len() == 1 && ls[0].len() > 0),
    ensures
        join_lines(ls).len() > 0,
{
    if ls.len() >= 2 {
        assert(join_lines(ls) == join_lines(ls.drop_last()) + seq!['\n'] + ls.last());
    }
}

proof fn lemma_scan_up_bounds(ls: Seq<Seq<char>>, start: int, seen: int)
    requires
        0 <= start < ls.len(),
    ensures
        0 <= scan_up(ls, start, seen) <= start,
    decreases start,
{
    if start > 0 && seen < MODULE_CONTEXT_LINES {
        lemma_scan_up_bounds(ls, start - 1, seen + 1);
    }
}

proof fn lemma_scan_down_bounds(ls: Seq<Seq<char>>, end: int, seen: int)
    requires
        0 <= end < ls.len(),
    ensures
        end <= scan_down(ls, end, seen) < ls.len(),
    decreases ls.len() - end,
{
    if end < ls.len() - 1 && seen < MODULE_CONTEXT_LINES {
        lemma_scan_down_bounds(ls, end + 1, seen + 1);
    }
}

/// The module-level window around the error line is that one line alone,
/// and it is empty.
pub open spec fn lone_empty_line(ls: Seq<Seq<char>>, e: int) -> bool {
    &&& scan_up(ls, e, 0) == e
    &&& scan_down(ls, e, 0) == e
    &&& ls[e].len() == 0
}

/// The 0-based error line that truncation uses for `text`.
pub open spec fn truncation_line(text: Seq<char>, err: SourceSpan, scope: SourceSpan) -> int {
    crate::code_context::error_line(bytes_of(text), lines_of(text).len(), scope, err)
}

proof fn lemma_error_line_range(text: Seq<char>, err: SourceSpan, scope: SourceSpan)
    requires
        lines_of(text).len() >= 1,
    ensures
        0 <= truncation_line(text, err, scope) < lines_of(text).len(),
{
}

proof fn lemma_function_lines_len(ls: Seq<Seq<char>>, e: int)
    requires
        0 <= e < ls.len(),
        ls.len() >= 3,
    ensures
        function_lines(ls, e).len() == 2 + (if context_start(e) > 1 {
            1int
        } else {
            0int
        }) + (window_end(e, ls.len() as int) - window_start(e) + 1) + (if window_end(
            e,
            ls.len() as int,
        ) < ls.len() - 2 {
            1int
        } else {
            0int
        }),
        function_lines(ls, e).len() <= 9,
{
}

/// Truncation never empties a text: the excerpt of a non-empty scope text is
/// non-empty, except for a module-level window that consists of one empty
/// line.
pub proof fn law_truncation_never_empties(
    text: Seq<char>,
    err: SourceSpan,
    scope: SourceSpan,
    kind: ScopeType,
)
    requires
        text.len() > 0,
        kind == ScopeType::ModuleLevel ==> !lone_empty_line(
            lines_of(text),
            truncation_line(text, err, scope),
        ),
    ensures
        truncation_of(text, err, scope, kind).0.len() > 0,
{
    let ls = lines_of(text);
    let e = truncation_line(text, err, scope);
    lemma_nonempty_has_lines(text);
    lemma_error_line_range(text, err, scope);
    match kind {
        ScopeType::ModuleLevel => {
            lemma_scan_up_bounds(ls, e, 0);
            lemma_scan_down_bounds(ls, e, 0);
            let w = module_lines(ls, e);
            if w.len() == 1 {
                assert(w[0] == ls[e]);
            }
            lemma_join_nonempty(w);
        },
        _ => {
            if ls.len() >= TRUNCATION_THRESHOLD {
                lemma_function_lines_len(ls, e);
                lemma_join_nonempty(function_lines(ls, e));
            }
        },
    }
}

/// When truncation info is present, the excerpt has no more lines than the
/// scope text, and the original count is the text's true line count.
pub proof fn law_truncation_monotonic(
    text: Seq<char>,
    err: SourceSpan,
    scope: SourceSpan,
    kind: ScopeType,
)
    requires
        truncation_of(text, err, scope, kind).1 is Some,
        lines_of(text).len() <= usize::MAX,
    ensures
        ({
            let (orig, shown, _) = truncation_of(text, err, scope, kind).1->Some_0;
            shown <= orig && orig == lines_of(text).len()
        }),
{
    let ls = lines_of(text);
    let e = truncation_line(text, err, scope);
    if kind != ScopeType::ModuleLevel && ls.len() >= TRUNCATION_THRESHOLD {
        lemma_error_line_range(text, err, scope);
        lemma_function_lines_len(ls, e);
    }
}

/// A function body of fourteen lines is shown verbatim with no truncation
/// info; one of fifteen lines is always truncated.
pub proof fn law_truncation_boundary(text: Seq<char>, err: SourceSpan, scope: SourceSpan)
    ensures
        lines_of(text).len() == 14 ==> truncation_of(text, err, scope, ScopeType::Function) == (
            text,
            None::<(usize, usize, Seq<(usize, usize)>)>,
        ),
        lines_of(text).len() == 15 ==> truncation_of(
            text,
            err,
            scope,
            ScopeType::Function,
        ).1 is Some,
{
}

/// When the error window of a long function touches neither the signature
/// nor the closing line, the excerpt has two omitted runs, and the lines they
/// hold are exactly the lines not shown.
pub proof fn law_two_omissions(text: Seq<char>, err: SourceSpan, scope: SourceSpan, kind: ScopeType)
    requires
        kind != ScopeType::ModuleLevel,
        TRUNCATION_THRESHOLD <= lines_of(text).len() <= usize::MAX,
        context_start(truncation_line(text, err, scope)) > 1,
        window_end(truncation_line(text, err, scope), lines_of(text).len() as int) < lines_of(
            text,
        ).len() - 2,
    ensures
        ({
            let n = lines_of(text).len() as int;
            let e = truncation_line(text, err, scope);
            let secs = function_sections(n, e);
            let shown = function_lines(lines_of(text), e);
            &&& secs.len() == 2
            &&& (secs[0].1 - secs[0].0 + 1) + (secs[1].1 - secs[1].0 + 1) == n - (shown.len() - 2)
        }),
{
    let ls = lines_of(text);
    let e = truncation_line(text, err, scope);
    lemma_error_line_range(text, err, scope);
    lemma_function_lines_len(ls, e);
}

/// A line in the form of an omission marker.
pub open spec fn is_marker_line(l: Seq<char>) -> bool {
    exists|k: nat| l == marker(k)
}

/// When the error window of a long function touches neither the signature
/// nor the closing line, and no line of the scope text itself reads like an
/// omission marker, the excerpt has exactly two marker lines: one right
/// after the signature and one right before the closing line, around a
/// five-line window.
pub proof fn law_two_markers(text: Seq<char>, err: SourceSpan, scope: SourceSpan, kind: ScopeType)
    requires
        kind != ScopeType::ModuleLevel,
        TRUNCATION_THRESHOLD <= lines_of(text).len() <= usize::MAX,
        context_start(truncation_line(text, err, scope)) > 1,
        window_end(truncation_line(text, err, scope), lines_of(text).len() as int) < lines_of(
            text,
        ).len() - 2,
        forall|j: int| 0 <= j < lines_of(text).len() ==> !is_marker_line(#[trigger] lines_of(text)[j]),
    ensures
        ({
            let shown = function_lines(lines_of(text), truncation_line(text, err, scope));
            &&& shown.len() == 9
            &&& forall|i: int| 0 <= i < 9 ==> (is_marker_line(#[trigger] shown[i]) <==> (i == 1 || i == 7))
        }),
{
    let ls = lines_of(text);
    let e = truncation_line(text, err, scope);
    lemma_error_line_range(text, err, scope);
    lemma_function_lines_len(ls, e);
    let shown = function_lines(ls, e);
    let cs = context_start(e);
    let we = window_end(e, ls.len() as int);
    let n = ls.len() as int;
    assert(shown[1] == marker((cs - 1) as nat));
    assert(shown[7] == marker((n - 2 - we) as nat));
    assert forall|i: int| 0 <= i < 9 implies (is_marker_line(#[trigger] shown[i]) <==> (i == 1 || i == 7)) by {
        if i == 1 {
            assert(is_marker_line(shown[1]));
        } else if i == 7 {
            assert(is_marker_line(shown[7]));
        } else if i == 0 {
            assert(shown[0] == ls[0]);
        } else if i == 8 {
            assert(shown[8] == ls[n - 1]);
        } else {
            assert(shown[i] == ls[window_start(e) + i - 2]);
        }
    }
}

/// A diagnostic outside every declared scope belongs to the module-level
/// scope named `global`, which spans the whole file.
pub proof fn law_degenerate_fallback(nodes: Seq<ScopeNode>, d: SourceSpan, source_len: nat)
    requires
        forall|i: int| 0 <= i < nodes.len() ==> !encloses(#[trigger] nodes[i], d),
    ensures
        located(nodes, d, source_len) == (
            SourceSpan { start: 0, end: source_len as u32 },
            ScopeType::ModuleLevel,
            "global"@,
        ),
{
    assert(!exists|i: int| is_best(nodes, d, i));
}

} // verus!
