//! ANSI SGR escape sequences for terminal styling.
use vstd::prelude::*;

use crate::chars::{chars_of, decimal, push_decimal, push_str, str_eq};
use crate::lines::{contains, contains_chars};

verus! {

/// The parameters of one SGR sequence, joined with `;`.
pub open spec fn join_params(ps: Seq<Seq<char>>) -> Seq<char>
    decreases ps.len(),
{
    if ps.len() == 0 {
        Seq::<char>::empty()
    } else if ps.len() == 1 {
        ps[0]
    } else {
        join_params(ps.drop_last()) + seq![';'] + ps.last()
    }
}

/// The escape sequence that applies the parameters `ps`; empty when there are
/// none.
pub open spec fn sgr(ps: Seq<Seq<char>>) -> Seq<char> {
    if ps.len() == 0 {
        Seq::<char>::empty()
    } else {
        "\x1b["@ + join_params(ps) + "m"@
    }
}

/// The parameter for a 24-bit colour, `base;2;r;g;b` (38 foreground, 48
/// background).
pub open spec fn rgb_param(base: Seq<char>, r: u8, g: u8, b: u8) -> Seq<char> {
    base + ";2;"@ + decimal(r as nat) + ";"@ + decimal(g as nat) + ";"@ + decimal(b as nat)
}

/// Builds one SGR escape sequence from styling parameters, in the order they
/// were added.
#[derive(Clone, Debug)]
pub struct AnsiBuilder {
    codes: Vec<String>,
}

impl View for AnsiBuilder {
    type V = Seq<Seq<char>>;

    closed spec fn view(&self) -> Seq<Seq<char>> {
        self.codes@.map_values(|c: String| c@)
    }
}

impl Default for AnsiBuilder {
    fn default() -> (r: AnsiBuilder)
        ensures
            r@ == Seq::<Seq<char>>::empty(),
    {
        AnsiBuilder::new()
    }
}

fn rgb_text(base: &str, r: u8, g: u8, b: u8) -> (s: String)
    ensures
        s@ == rgb_param(base@, r, g, b),
{
    let mut s = String::new();
    push_str(&mut s, base);
    push_str(&mut s, ";2;");
    push_decimal(&mut s, r as usize);
    push_str(&mut s, ";");
    push_decimal(&mut s, g as usize);
    push_str(&mut s, ";");
    push_decimal(&mut s, b as usize);
    s
}

impl AnsiBuilder {
    /// Resets all styling.
    pub const RESET: &'static str = "\x1b[0m";

    pub fn new() -> (r: AnsiBuilder)
        ensures
            r@ == Seq::<Seq<char>>::empty(),
    {
        let r = AnsiBuilder { codes: Vec::new() };
        assert(r@ =~= Seq::<Seq<char>>::empty());
        r
    }

    fn with_code(self, code: String) -> (r: AnsiBuilder)
        ensures
            r@ == self@.push(code@),
    {
        let mut codes = self.codes;
        codes.push(code);
        let r = AnsiBuilder { codes };
        assert(r@ =~= self@.push(code@));
        r
    }

    /// Adds a 24-bit foreground colour.
    pub fn fg_rgb(self, r: u8, g: u8, b: u8) -> (res: AnsiBuilder)
        ensures
            res@ == self@.push(rgb_param("38"@, r, g, b)),
    {
        let code = rgb_text("38", r, g, b);
        self.with_code(code)
    }

    /// Adds a 24-bit background colour.
    pub fn bg_rgb(self, r: u8, g: u8, b: u8) -> (res: AnsiBuilder)
        ensures
            res@ == self@.push(rgb_param("48"@, r, g, b)),
    {
        let code = rgb_text("48", r, g, b);
        self.with_code(code)
    }

    pub fn bold(self) -> (res: AnsiBuilder)
        ensures
            res@ == self@.push("1"@),
    {
        self.with_code(String::from_str("1"))
    }

    pub fn italic(self) -> (res: AnsiBuilder)
        ensures
            res@ == self@.push("3"@),
    {
        self.with_code(String::from_str("3"))
    }

    pub fn underline(self) -> (res: AnsiBuilder)
        ensures
            res@ == self@.push("4"@),
    {
        self.with_code(String::from_str("4"))
    }

    /// The escape sequence for the parameters added so far; empty when none
    /// were added.
    pub fn build(&self) -> (r: String)
        ensures
            r@ == sgr(self@),
    {
        if self.codes.len() == 0 {
            return String::new();
        }
        let mut out = String::new();
        push_str(&mut out, "\x1b[");
        let ghost start = out@;
        let mut i: usize = 0;
        while i < self.codes.len()
            invariant
                i <= self@.len(),
                self@.len() > 0,
                out@ == start + join_params(self@.take(i as int)),
            decreases self@.len() - i,
        {
            let ghost before = out@;
            if i > 0 {
                push_str(&mut out, ";");
            }
            push_str(&mut out, self.codes[i].as_str());
            i = i + 1;
            let ghost t = self@.take(i as int);
            assert(t.drop_last() =~= self@.take(i - 1));
            assert(self.codes@[i - 1]@ == t.last());
            if i > 1 {
                proof { reveal_strlit(";"); }
                assert(out@ =~= start + (join_params(t.drop_last()) + seq![';'] + t.last()));
            } else {
                assert(out@ =~= start + t[0]);
            }
        }
        assert(self@.take(i as int) =~= self@);
        push_str(&mut out, "m");
        out
    }
}

/// How many colours a terminal can show.
#[derive(Clone, Copy, Debug, PartialEq, Eq, Structural)]
pub enum TerminalCapabilities {
    /// 24-bit colour.
    TrueColor,
    /// The 256-colour palette.
    Color256,
    /// The basic 16 colours.
    Basic16,
}

/// The colour support signalled by the `COLORTERM` and `TERM` variables:
/// `truecolor` or `24bit` in `COLORTERM` means 24-bit colour, a `TERM` that
/// mentions `256` means the 256-colour palette, anything else the basic 16.
pub fn capabilities_from(colorterm: Option<&str>, term: Option<&str>) -> (r: TerminalCapabilities)
    ensures
        r == (if colorterm matches Some(c) && (c@ == "truecolor"@ || c@ == "24bit"@) {
            TerminalCapabilities::TrueColor
        } else if term matches Some(t) && contains(t@, "256"@) {
            TerminalCapabilities::Color256
        } else {
            TerminalCapabilities::Basic16
        }),
{
    if let Some(c) = colorterm {
        if str_eq(c, "truecolor") || str_eq(c, "24bit") {
            return TerminalCapabilities::TrueColor;
        }
    }
    if let Some(t) = term {
        if contains_chars(&chars_of(t), &chars_of("256")) {
            return TerminalCapabilities::Color256;
        }
    }
    TerminalCapabilities::Basic16
}

} // verus!
