//! Keyword colouring of TypeScript code for terminals and HTML.
use vstd::prelude::*;

use crate::chars::{chars_of, push_chars, push_str, same_chars};
use crate::html::{escape_text, html_text};
use crate::lines::{is_space, is_space_char, trim, trim_chars, views};
use crate::models::TypeError;
use crate::span::SourceSpan;

verus! {

pub const RED: &'static str = "\x1b[31m";
pub const GREEN: &'static str = "\x1b[32m";
pub const YELLOW: &'static str = "\x1b[33m";
pub const BLUE: &'static str = "\x1b[34m";
pub const MAGENTA: &'static str = "\x1b[35m";
pub const CYAN: &'static str = "\x1b[36m";
pub const RESET: &'static str = "\x1b[0m";
pub const BOLD: &'static str = "\x1b[1m";

/// Characters that end a token: whitespace and `{}()[],.;:`.
pub open spec fn is_separator(c: char) -> bool {
    is_space(c) || c == '{' || c == '}' || c == '(' || c == ')' || c == '[' || c == ']' || c == ','
        || c == '.' || c == ';' || c == ':'
}

/// `s` cut after every separator; the pieces keep their separators and
/// together make up `s`.
pub open spec fn tokens(s: Seq<char>) -> Seq<Seq<char>>
    decreases s.len(),
{
    if s.len() == 0 {
        Seq::<Seq<char>>::empty()
    } else {
        let p = tokens(s.drop_last());
        if p.len() == 0 || is_separator(p.last().last()) {
            p.push(seq![s.last()])
        } else {
            p.update(p.len() - 1, p.last().push(s.last()))
        }
    }
}

pub open spec fn is_keyword(t: Seq<char>) -> bool {
    t == "const"@ || t == "let"@ || t == "var"@ || t == "function"@ || t == "class"@ || t
        == "interface"@ || t == "type"@ || t == "enum"@ || t == "import"@ || t == "export"@ || t
        == "from"@ || t == "return"@ || t == "if"@ || t == "else"@ || t == "for"@ || t == "while"@
}

pub open spec fn is_type_name(t: Seq<char>) -> bool {
    t == "string"@ || t == "number"@ || t == "boolean"@ || t == "any"@ || t == "void"@ || t
        == "null"@ || t == "undefined"@
}

pub open spec fn starts_with(s: Seq<char>, p: Seq<char>) -> bool {
    p.len() <= s.len() && s.take(p.len() as int) == p
}

/// One token for the terminal: comments green, keywords blue, type names
/// cyan.
pub open spec fn console_token(t: Seq<char>) -> Seq<char> {
    if starts_with(t, "//"@) {
        "\x1b[32m"@ + t + "\x1b[0m"@
    } else if is_keyword(trim(t)) {
        "\x1b[34m"@ + t + "\x1b[0m"@
    } else if is_type_name(trim(t)) {
        "\x1b[36m"@ + t + "\x1b[0m"@
    } else {
        t
    }
}

/// One token as HTML: escaped, keywords and type names in a classed span.
pub open spec fn html_token(t: Seq<char>) -> Seq<char> {
    if is_keyword(trim(t)) {
        "<span class=\"keyword\">"@ + html_text(t) + "</span>"@
    } else if is_type_name(trim(t)) {
        "<span class=\"type\">"@ + html_text(t) + "</span>"@
    } else {
        html_text(t)
    }
}

pub open spec fn concat_map(ts: Seq<Seq<char>>, html: bool) -> Seq<char>
    decreases ts.len(),
{
    if ts.len() == 0 {
        Seq::<char>::empty()
    } else {
        concat_map(ts.drop_last(), html) + if html {
            html_token(ts.last())
        } else {
            console_token(ts.last())
        }
    }
}

fn is_separator_char(c: char) -> (r: bool)
    ensures
        r == is_separator(c),
{
    is_space_char(c) || c == '{' || c == '}' || c == '(' || c == ')' || c == '[' || c == ']' || c
        == ',' || c == '.' || c == ';' || c == ':'
}

proof fn lemma_tokens_nonempty(s: Seq<char>)
    ensures
        forall|i: int| 0 <= i < tokens(s).len() ==> #[trigger] tokens(s)[i].len() > 0,
    decreases s.len(),
{
    if s.len() > 0 {
        lemma_tokens_nonempty(s.drop_last());
        let p = tokens(s.drop_last());
        assert forall|i: int| 0 <= i < tokens(s).len() implies #[trigger] tokens(s)[i].len() > 0 by {
            if i < p.len() {
                assert(p[i].len() > 0);
            }
        }
    }
}

/// Splits `s` after every separator.
pub fn split_tokens(s: &Vec<char>) -> (r: Vec<Vec<char>>)
    ensures
        views(r@) == tokens(s@),
{
    let mut done: Vec<Vec<char>> = Vec::new();
    let mut cur: Vec<char> = Vec::new();
    let mut i: usize = 0;
    assert(s@.take(0) =~= Seq::<char>::empty());
    while i < s.len()
        invariant
            i <= s@.len(),
            ({
                let t = tokens(s@.take(i as int));
                if cur@.len() == 0 {
                    views(done@) == t && (t.len() == 0 || is_separator(t.last().last()))
                } else {
                    t.len() > 0 && views(done@) == t.drop_last() && cur@ == t.last()
                        && !is_separator(cur@.last())
                }
            }),
        decreases s@.len() - i,
    {
        let ghost t = tokens(s@.take(i as int));
        let ghost t2 = tokens(s@.take(i + 1));
        assert(s@.take(i + 1).drop_last() =~= s@.take(i as int));
        proof {
            lemma_tokens_nonempty(s@.take(i as int));
        }
        let c = s[i];
        let ghost old_cur = cur@;
        cur.push(c);
        proof {
            if old_cur.len() == 0 {
                assert(t2 == t.push(seq![c]));
                assert(cur@ =~= seq![c]);
            } else {
                assert(t2 == t.update(t.len() - 1, old_cur.push(c)));
                assert(t2.drop_last() =~= t.drop_last());
            }
        }
        if is_separator_char(c) {
            let ghost before = views(done@);
            done.push(cur);
            cur = Vec::new();
            assert(views(done@) =~= before.push(t2.last()));
            assert(views(done@) =~= t2);
        }
        i = i + 1;
    }
    assert(s@.take(i as int) =~= s@);
    if cur.len() > 0 {
        let ghost before = views(done@);
        done.push(cur);
        assert(views(done@) =~= before.push(tokens(s@).last()));
        assert(views(done@) =~= tokens(s@));
    }
    done
}

fn is_lit(v: &Vec<char>, lit: &str) -> (r: bool)
    ensures
        r == (v@ == lit@),
{
    same_chars(v, &chars_of(lit))
}

fn keyword(t: &Vec<char>) -> (r: bool)
    ensures
        r == is_keyword(t@),
{
    is_lit(t, "const") || is_lit(t, "let") || is_lit(t, "var") || is_lit(t, "function") || is_lit(
        t,
        "class",
    ) || is_lit(t, "interface") || is_lit(t, "type") || is_lit(t, "enum") || is_lit(t, "import")
        || is_lit(t, "export") || is_lit(t, "from") || is_lit(t, "return") || is_lit(t, "if")
        || is_lit(t, "else") || is_lit(t, "for") || is_lit(t, "while")
}

fn primitive_type(t: &Vec<char>) -> (r: bool)
    ensures
        r == is_type_name(t@),
{
    is_lit(t, "string") || is_lit(t, "number") || is_lit(t, "boolean") || is_lit(t, "any")
        || is_lit(t, "void") || is_lit(t, "null") || is_lit(t, "undefined")
}

fn comment_start(t: &Vec<char>) -> (r: bool)
    ensures
        r == starts_with(t@, "//"@),
{
    proof {
        reveal_strlit("//");
    }
    let r = t.len() >= 2 && t[0] == '/' && t[1] == '/';
    if t.len() >= 2 {
        assert(t@.take(2)[0] == t@[0] && t@.take(2)[1] == t@[1]);
    }
    assert(r ==> t@.take(2) =~= "//"@);
    r
}

fn colour_tokens(code: &str, html: bool) -> (r: String)
    ensures
        r@ == concat_map(tokens(code@), html),
{
    let chars = chars_of(code);
    let toks = split_tokens(&chars);
    let ghost ts = views(toks@);
    let mut out = String::new();
    let mut i: usize = 0;
    while i < toks.len()
        invariant
            i <= toks@.len(),
            ts == views(toks@),
            out@ == concat_map(ts.take(i as int), html),
        decreases toks@.len() - i,
    {
        let tok = &toks[i];
        let trimmed = trim_chars(tok);
        if html {
            let mut text = String::new();
            push_chars(&mut text, tok);
            let escaped = escape_text(text.as_str());
            if keyword(&trimmed) {
                push_str(&mut out, "<span class=\"keyword\">");
                push_str(&mut out, escaped.as_str());
                push_str(&mut out, "</span>");
            } else if primitive_type(&trimmed) {
                push_str(&mut out, "<span class=\"type\">");
                push_str(&mut out, escaped.as_str());
                push_str(&mut out, "</span>");
            } else {
                push_str(&mut out, escaped.as_str());
            }
        } else {
            if comment_start(tok) {
                push_str(&mut out, GREEN);
                push_chars(&mut out, tok);
                push_str(&mut out, RESET);
            } else if keyword(&trimmed) {
                push_str(&mut out, BLUE);
                push_chars(&mut out, tok);
                push_str(&mut out, RESET);
            } else if primitive_type(&trimmed) {
                push_str(&mut out, CYAN);
                push_chars(&mut out, tok);
                push_str(&mut out, RESET);
            } else {
                push_chars(&mut out, tok);
            }
        }
        i = i + 1;
        assert(ts.take(i as int).drop_last() =~= ts.take(i - 1));
    }
    assert(ts.take(i as int) =~= ts);
    out
}

/// Colours TypeScript keywords, type names and comments with ANSI codes.
pub struct ConsoleColorizer;

impl ConsoleColorizer {
    /// Colours `code` token by token: tokens end after whitespace or one of
    /// `{}()[],.;:`; `//` comments are green, keywords blue, type names cyan.
    pub fn colorize_code_block(code: &str, _language: &str) -> (r: String)
        ensures
            r@ == concat_map(tokens(code@), false),
    {
        colour_tokens(code, false)
    }

    /// `source` in red.
    pub fn highlight_error(_error_span: &SourceSpan, source: &str) -> (r: String)
        ensures
            r@ == "\x1b[31m"@ + source@ + "\x1b[0m"@,
    {
        let mut s = String::new();
        push_str(&mut s, RED);
        push_str(&mut s, source);
        push_str(&mut s, RESET);
        s
    }
}

/// Marks TypeScript keywords and type names up as HTML.
pub struct HtmlColorizer;

impl HtmlColorizer {
    /// Escapes `code` token by token, wrapping keywords in
    /// `<span class="keyword">` and type names in `<span class="type">`.
    pub fn colorize_code_block(code: &str, _language: &str) -> (r: String)
        ensures
            r@ == concat_map(tokens(code@), true),
    {
        colour_tokens(code, true)
    }

    /// An error block: the escaped source in `<pre>`, then the escaped
    /// message, tagged with the error's id.
    pub fn highlight_error(error: &TypeError, source: &str) -> (r: String)
        ensures
            r@ == "<div class=\"error-block\" data-error-id=\""@ + error.id@ + "\"><pre>"@
                + html_text(source@) + "</pre><div class=\"message\">"@ + html_text(
                error.message@,
            ) + "</div></div>"@,
    {
        let mut s = String::new();
        push_str(&mut s, "<div class=\"error-block\" data-error-id=\"");
        push_str(&mut s, error.id.as_str());
        push_str(&mut s, "\"><pre>");
        let escaped_source = escape_text(source);
        push_str(&mut s, escaped_source.as_str());
        push_str(&mut s, "</pre><div class=\"message\">");
        let escaped_message = escape_text(error.message.as_str());
        push_str(&mut s, escaped_message.as_str());
        push_str(&mut s, "</div></div>");
        s
    }
}

} // verus!
