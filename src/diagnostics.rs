//! Turning raw parser diagnostics into reported type errors: error codes and
//! the named scope path of a diagnostic.
use vstd::prelude::*;

use crate::chars::{join_strings, join_with, push_str, texts};
use crate::span::SourceSpan;

verus! {

/// A named declaration (function, class or method) and its span.
#[derive(Clone, Debug)]
pub struct NamedScope {
    pub name: String,
    pub span: SourceSpan,
}

/// The code of a diagnostic from its scope (such as `TS`) and number (such
/// as `2322`): both joined, either alone, or `error` when there is neither.
pub open spec fn code_text(scope: Option<Seq<char>>, number: Option<Seq<char>>) -> Seq<char> {
    match (scope, number) {
        (Some(s), Some(n)) => s + n,
        (Some(s), None) => s,
        (None, Some(n)) => n,
        (None, None) => "error"@,
    }
}

/// The code of a diagnostic from its scope and number.
pub fn error_code(scope: Option<&str>, number: Option<&str>) -> (r: String)
    ensures
        r@ == code_text(
            match scope {
                Some(s) => Some(s@),
                None => None,
            },
            match number {
                Some(n) => Some(n@),
                None => None,
            },
        ),
{
    let mut s = String::new();
    match (scope, number) {
        (Some(sc), Some(n)) => {
            push_str(&mut s, sc);
            push_str(&mut s, n);
        },
        (Some(sc), None) => push_str(&mut s, sc),
        (None, Some(n)) => push_str(&mut s, n),
        (None, None) => push_str(&mut s, "error"),
    }
    s
}

/// The names of the declarations in `named` that contain `span`, in the
/// order given (outermost first for a pre-order list).
pub open spec fn enclosing_names(named: Seq<NamedScope>, span: SourceSpan) -> Seq<Seq<char>>
    decreases named.len(),
{
    if named.len() == 0 {
        Seq::<Seq<char>>::empty()
    } else {
        let d = named.last();
        enclosing_names(named.drop_last(), span) + if d.span.start <= span.start && span.end
            <= d.span.end {
            seq![d.name@]
        } else {
            Seq::<Seq<char>>::empty()
        }
    }
}

/// The scope path of a diagnostic: the enclosing names joined with `::`, or
/// `global` when no declaration encloses it.
pub open spec fn scope_path_text(named: Seq<NamedScope>, span: SourceSpan) -> Seq<char> {
    let names = enclosing_names(named, span);
    if names.len() == 0 {
        "global"@
    } else {
        join_with(names, "::"@)
    }
}

/// The scope path of a diagnostic at `span`, given the named declarations
/// of the file in pre-order.
pub fn scope_path(span: SourceSpan, named: &Vec<NamedScope>) -> (r: String)
    ensures
        r@ == scope_path_text(named@, span),
{
    let mut names: Vec<String> = Vec::new();
    let mut i: usize = 0;
    while i < named.len()
        invariant
            i <= named@.len(),
            texts(names@) == enclosing_names(named@.take(i as int), span),
        decreases named@.len() - i,
    {
        let d = &named[i];
        let ghost before = texts(names@);
        if d.span.contains_inclusive(span) {
            let n = d.name.clone();
            names.push(n);
            assert(texts(names@) =~= before.push(named@[i as int].name@));
        }
        i = i + 1;
        assert(named@.take(i as int).drop_last() =~= named@.take(i - 1));
    }
    assert(named@.take(i as int) =~= named@);
    if names.len() == 0 {
        return String::from_str("global");
    }
    join_strings(&names, "::")
}

} // verus!
