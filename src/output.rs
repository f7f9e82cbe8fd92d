//! Output formats, and the HTML reports of type errors and symbols.
use vstd::prelude::*;

use crate::chars::{decimal, push_decimal, push_str};
use crate::html::{escape_text, html_text};
use crate::models::{SymbolInfo, SymbolKind, TypeError};

verus! {

/// The format a report is written in.
#[derive(Clone, Copy, Debug, PartialEq, Eq, Structural)]
pub enum OutputFormat {
    Console,
    Html,
    Json,
}

impl Default for OutputFormat {
    fn default() -> (r: OutputFormat)
        ensures
            r == OutputFormat::Console,
    {
        OutputFormat::Console
    }
}

/// `text` as a terminal hyperlink (OSC 8) to the file at `abs_path`.
pub open spec fn osc8_link(text: Seq<char>, abs_path: Seq<char>) -> Seq<char> {
    "\x1b]8;;file://"@ + abs_path + "\x1b\\"@ + text + "\x1b]8;;\x1b\\"@
}

/// Makes `text` a clickable terminal link to the file at the absolute path
/// `abs_path`.
pub fn link_to_path(text: &str, abs_path: &str) -> (r: String)
    ensures
        r@ == osc8_link(text@, abs_path@),
{
    let mut s = String::new();
    push_str(&mut s, "\x1b]8;;file://");
    push_str(&mut s, abs_path);
    push_str(&mut s, "\x1b\\");
    push_str(&mut s, text);
    push_str(&mut s, "\x1b]8;;\x1b\\");
    s
}

/// The name of a symbol kind, as shown in reports.
pub open spec fn kind_name(k: SymbolKind) -> Seq<char> {
    match k {
        SymbolKind::Function => "Function"@,
        SymbolKind::Class => "Class"@,
        SymbolKind::Interface => "Interface"@,
        SymbolKind::Type => "Type"@,
        SymbolKind::Variable => "Variable"@,
        SymbolKind::Enum => "Enum"@,
    }
}

fn kind_text(k: SymbolKind) -> (r: &'static str)
    ensures
        r@ == kind_name(k),
{
    match k {
        SymbolKind::Function => "Function",
        SymbolKind::Class => "Class",
        SymbolKind::Interface => "Interface",
        SymbolKind::Type => "Type",
        SymbolKind::Variable => "Variable",
        SymbolKind::Enum => "Enum",
    }
}

/// `names`, each escaped in a `type-annotation` span, inside a `<div>` of
/// class `cls`; nothing when there are no names.
pub open spec fn name_list(cls: Seq<char>, names: Seq<Seq<char>>) -> Seq<char> {
    if names.len() == 0 {
        Seq::<char>::empty()
    } else {
        "  <div class=\""@ + cls + "\">"@ + name_spans(names) + "</div>\n"@
    }
}

pub open spec fn name_spans(names: Seq<Seq<char>>) -> Seq<char>
    decreases names.len(),
{
    if names.len() == 0 {
        Seq::<char>::empty()
    } else {
        name_spans(names.drop_last()) + "<span class=\"type-annotation\">"@ + html_text(
            names.last(),
        ) + "</span>"@
    }
}

/// The header of a symbol's HTML block.
pub open spec fn symbol_header(s: SymbolInfo) -> Seq<char> {
    "<div class=\"symbol-block\" data-kind=\""@ + kind_name(s.kind)
        + "\">\n  <div class=\"symbol-header\">\n    <span class=\"keyword\">"@ + kind_name(s.kind)
        + "</span>\n    <span class=\"symbol-name\">"@ + html_text(s.name@)
        + "</span>\n    <span class=\"file-path\">"@ + html_text(s.file@) + ":"@ + decimal(
        s.start_line as nat,
    ) + "-"@ + decimal(s.end_line as nat) + "</span>\n  </div>\n"@
}

/// One symbol as an HTML block.
pub open spec fn symbol_html(s: SymbolInfo) -> Seq<char> {
    symbol_header(s) + match s.parameters {
        Some(ps) => name_list(
            "parameters"@,
            ps@.map_values(|p: crate::models::ParameterInfo| p.name@),
        ),
        None => Seq::<char>::empty(),
    } + match s.properties {
        Some(ps) => name_list(
            "properties"@,
            ps@.map_values(|p: crate::models::PropertyInfo| p.name@),
        ),
        None => Seq::<char>::empty(),
    } + "</div>\n"@
}

pub open spec fn symbols_html(ss: Seq<SymbolInfo>) -> Seq<char>
    decreases ss.len(),
{
    if ss.len() == 0 {
        Seq::<char>::empty()
    } else {
        symbols_html(ss.drop_last()) + symbol_html(ss.last())
    }
}

fn push_name_list(out: &mut String, cls: &str, names: &Vec<String>)
    ensures
        final(out)@ == old(out)@ + name_list(cls@, names@.map_values(|n: String| n@)),
{
    let ghost ns = names@.map_values(|n: String| n@);
    if names.len() == 0 {
        return;
    }
    push_str(out, "  <div class=\"");
    push_str(out, cls);
    push_str(out, "\">");
    let ghost start = out@;
    let mut i: usize = 0;
    while i < names.len()
        invariant
            i <= names@.len(),
            ns == names@.map_values(|n: String| n@),
            out@ == start + name_spans(ns.take(i as int)),
        decreases names@.len() - i,
    {
        push_str(out, "<span class=\"type-annotation\">");
        let e = escape_text(names[i].as_str());
        push_str(out, e.as_str());
        push_str(out, "</span>");
        i = i + 1;
        assert(ns.take(i as int).drop_last() =~= ns.take(i - 1));
    }
    assert(ns.take(i as int) =~= ns);
    push_str(out, "</div>\n");
}

fn param_names(ps: &Vec<crate::models::ParameterInfo>) -> (r: Vec<String>)
    ensures
        r@.map_values(|n: String| n@) == ps@.map_values(|p: crate::models::ParameterInfo| p.name@),
{
    let mut r: Vec<String> = Vec::new();
    let mut i: usize = 0;
    while i < ps.len()
        invariant
            i <= ps@.len(),
            r@.map_values(|n: String| n@) == ps@.take(i as int).map_values(
                |p: crate::models::ParameterInfo| p.name@,
            ),
        decreases ps@.len() - i,
    {
        let ghost before = r@.map_values(|n: String| n@);
        let n = ps[i].name.clone();
        assert(n@ == ps@[i as int].name@);
        r.push(n);
        assert(r@.map_values(|n: String| n@) =~= before.push(ps@[i as int].name@));
        assert(ps@.take(i + 1).map_values(|p: crate::models::ParameterInfo| p.name@) =~= ps@.take(
            i as int,
        ).map_values(|p: crate::models::ParameterInfo| p.name@).push(ps@[i as int].name@));
        i = i + 1;
    }
    assert(ps@.take(i as int) =~= ps@);
    r
}

fn property_names(ps: &Vec<crate::models::PropertyInfo>) -> (r: Vec<String>)
    ensures
        r@.map_values(|n: String| n@) == ps@.map_values(|p: crate::models::PropertyInfo| p.name@),
{
    let mut r: Vec<String> = Vec::new();
    let mut i: usize = 0;
    while i < ps.len()
        invariant
            i <= ps@.len(),
            r@.map_values(|n: String| n@) == ps@.take(i as int).map_values(
                |p: crate::models::PropertyInfo| p.name@,
            ),
        decreases ps@.len() - i,
    {
        let ghost before = r@.map_values(|n: String| n@);
        let n = ps[i].name.clone();
        assert(n@ == ps@[i as int].name@);
        r.push(n);
        assert(r@.map_values(|n: String| n@) =~= before.push(ps@[i as int].name@));
        assert(ps@.take(i + 1).map_values(|p: crate::models::PropertyInfo| p.name@) =~= ps@.take(
            i as int,
        ).map_values(|p: crate::models::PropertyInfo| p.name@).push(ps@[i as int].name@));
        i = i + 1;
    }
    assert(ps@.take(i as int) =~= ps@);
    r
}

fn symbol_header_text(s: &SymbolInfo) -> (r: String)
    ensures
        r@ == symbol_header(*s),
{
    let mut out = String::new();
    let kind = kind_text(s.kind);
    push_str(&mut out, "<div class=\"symbol-block\" data-kind=\"");
    push_str(&mut out, kind);
    push_str(&mut out, "\">\n  <div class=\"symbol-header\">\n    <span class=\"keyword\">");
    push_str(&mut out, kind);
    push_str(&mut out, "</span>\n    <span class=\"symbol-name\">");
    let name = escape_text(s.name.as_str());
    push_str(&mut out, name.as_str());
    push_str(&mut out, "</span>\n    <span class=\"file-path\">");
    let file = escape_text(s.file.as_str());
    push_str(&mut out, file.as_str());
    push_str(&mut out, ":");
    push_decimal(&mut out, s.start_line);
    push_str(&mut out, "-");
    push_decimal(&mut out, s.end_line);
    push_str(&mut out, "</span>\n  </div>\n");
    out
}

fn push_symbol_html(out: &mut String, s: &SymbolInfo)
    ensures
        final(out)@ == old(out)@ + symbol_html(*s),
{
    let header = symbol_header_text(s);
    push_str(out, header.as_str());
    if let Some(ps) = &s.parameters {
        let names = param_names(ps);
        push_name_list(out, "parameters", &names);
    }
    if let Some(ps) = &s.properties {
        let names = property_names(ps);
        push_name_list(out, "properties", &names);
    }
    push_str(out, "</div>\n");
}

/// The HTML report of `symbols`, one block each, in order.
pub fn format_symbols_html(symbols: &Vec<SymbolInfo>) -> (r: String)
    ensures
        r@ == "<div class=\"symbols\">\n"@ + symbols_html(symbols@) + "</div>"@,
{
    let mut out = String::new();
    push_str(&mut out, "<div class=\"symbols\">\n");
    let ghost start = out@;
    let mut i: usize = 0;
    while i < symbols.len()
        invariant
            i <= symbols@.len(),
            out@ == start + symbols_html(symbols@.take(i as int)),
        decreases symbols@.len() - i,
    {
        push_symbol_html(&mut out, &symbols[i]);
        i = i + 1;
        assert(symbols@.take(i as int).drop_last() =~= symbols@.take(i - 1));
    }
    assert(symbols@.take(i as int) =~= symbols@);
    push_str(&mut out, "</div>");
    out
}

/// The code part of an error block: the highlighted HTML when there is one,
/// else the escaped display code, else the escaped legacy block, else
/// nothing.
pub open spec fn error_code_html(e: TypeError, highlighted: Option<String>) -> Seq<char> {
    match e.source_code {
        Some(src) => match highlighted {
            Some(h) => "  <div class=\"code-highlight\">\n"@ + h@ + "  </div>\n"@,
            None => "  <pre>"@ + html_text(src.display_code@) + "</pre>\n"@,
        },
        None => if e.block@.len() > 0 {
            "  <pre>"@ + html_text(e.block@) + "</pre>\n"@
        } else {
            Seq::<char>::empty()
        },
    }
}

/// The header of a type error's HTML block.
pub open spec fn error_header(e: TypeError) -> Seq<char> {
    "<div class=\"error-block\">\n  <div class=\"error-header\">\n    <span class=\"error-id\">["@
        + html_text(e.id@) + "]</span>\n    <span class=\"keyword\">in</span>\n    <span class=\"scope\">"@
        + html_text(e.scope@)
        + "</span>\n  </div>\n  <div class=\"error-location\">\n    <span class=\"keyword\">at</span>\n    <span class=\"file-path\">"@
        + html_text(e.file@) + ":"@ + decimal(e.line as nat) + ":"@ + decimal(e.column as nat)
        + "</span>\n  </div>\n  <div class=\"error-message\">"@ + html_text(e.message@)
        + "</div>\n"@
}

/// One type error as an HTML block.
pub open spec fn error_html(e: TypeError, highlighted: Option<String>) -> Seq<char> {
    error_header(e) + error_code_html(e, highlighted) + "</div>\n"@
}

pub open spec fn errors_html(es: Seq<TypeError>, hs: Seq<Option<String>>) -> Seq<char>
    decreases es.len(),
{
    if es.len() == 0 {
        Seq::<char>::empty()
    } else {
        errors_html(es.drop_last(), hs) + error_html(es.last(), hs[es.len() - 1])
    }
}

fn error_header_text(e: &TypeError) -> (r: String)
    ensures
        r@ == error_header(*e),
{
    let mut out = String::new();
    push_str(
        &mut out,
        "<div class=\"error-block\">\n  <div class=\"error-header\">\n    <span class=\"error-id\">[",
    );
    let id = escape_text(e.id.as_str());
    push_str(&mut out, id.as_str());
    push_str(&mut out, "]</span>\n    <span class=\"keyword\">in</span>\n    <span class=\"scope\">");
    let scope = escape_text(e.scope.as_str());
    push_str(&mut out, scope.as_str());
    push_str(
        &mut out,
        "</span>\n  </div>\n  <div class=\"error-location\">\n    <span class=\"keyword\">at</span>\n    <span class=\"file-path\">",
    );
    let file = escape_text(e.file.as_str());
    push_str(&mut out, file.as_str());
    push_str(&mut out, ":");
    push_decimal(&mut out, e.line);
    push_str(&mut out, ":");
    push_decimal(&mut out, e.column);
    push_str(&mut out, "</span>\n  </div>\n  <div class=\"error-message\">");
    let message = escape_text(e.message.as_str());
    push_str(&mut out, message.as_str());
    push_str(&mut out, "</div>\n");
    out
}

fn push_error_html(out: &mut String, e: &TypeError, highlighted: &Option<String>)
    ensures
        final(out)@ == old(out)@ + error_html(*e, *highlighted),
{
    let header = error_header_text(e);
    push_str(out, header.as_str());
    match &e.source_code {
        Some(src) => match highlighted {
            Some(h) => {
                push_str(out, "  <div class=\"code-highlight\">\n");
                push_str(out, h.as_str());
                push_str(out, "  </div>\n");
            },
            None => {
                push_str(out, "  <pre>");
                let code = escape_text(src.display_code.as_str());
                push_str(out, code.as_str());
                push_str(out, "</pre>\n");
            },
        },
        None => {
            let block = e.block.as_str();
            if !block.is_empty() {
                push_str(out, "  <pre>");
                let code = escape_text(block);
                push_str(out, code.as_str());
                push_str(out, "</pre>\n");
            }
        },
    }
    push_str(out, "</div>\n");
}

/// The HTML report of `errors`, one block each, in order; `highlighted[i]`
/// is the highlighted HTML of the code of error `i`, when highlighting it
/// succeeded.
pub fn format_type_errors_html(errors: &Vec<TypeError>, highlighted: &Vec<Option<String>>) -> (r:
    String)
    requires
        highlighted@.len() == errors@.len(),
    ensures
        r@ == "<div class=\"type-errors\">\n"@ + errors_html(errors@, highlighted@) + "</div>"@,
{
    let mut out = String::new();
    push_str(&mut out, "<div class=\"type-errors\">\n");
    let ghost start = out@;
    let mut i: usize = 0;
    while i < errors.len()
        invariant
            i <= errors@.len() == highlighted@.len(),
            out@ == start + errors_html(errors@.take(i as int), highlighted@),
        decreases errors@.len() - i,
    {
        push_error_html(&mut out, &errors[i], &highlighted[i]);
        i = i + 1;
        assert(errors@.take(i as int).drop_last() =~= errors@.take(i - 1));
    }
    assert(errors@.take(i as int) =~= errors@);
    push_str(&mut out, "</div>");
    out
}

} // verus!
