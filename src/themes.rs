//! Built-in colour themes and their names.
use std::path::PathBuf;
use vstd::prelude::*;

use crate::chars::{chars_of, same_chars};
use crate::error::HighlightError;

verus! {

/// `std::path::PathBuf`, carried opaquely in `ThemeSource::Custom`.
#[verifier::external_type_specification]
#[verifier::external_body]
pub struct ExPathBuf(PathBuf);

/// The themes that ship with the highlighter.
#[derive(Clone, Copy, Debug, PartialEq, Eq, Structural)]
pub enum BuiltinTheme {
    SolarizedLight,
    Base16OceanDark,
    MonokaiExtended,
    Zenburn,
    Dracula,
    GruvboxDark,
    GruvboxLight,
}

/// Where a theme comes from.
#[derive(Debug)]
pub enum ThemeSource {
    Builtin(BuiltinTheme),
    Custom(PathBuf),
}

/// The lowercase form of `s`, as `str::to_lowercase` computes it.
pub uninterp spec fn lower_of(s: Seq<char>) -> Seq<char>;

/// Relies on `str::to_lowercase`: the result depends on the characters of
/// `s` alone, and the empty text stays empty.
#[verifier::external_body]
fn lowercase(s: &str) -> (r: String)
    ensures
        r@ == lower_of(s@),
        s@.len() == 0 ==> r@.len() == 0,
{
    s.to_lowercase()
}

/// The highlighter's own name of a theme.
pub open spec fn theme_name(t: BuiltinTheme) -> Seq<char> {
    match t {
        BuiltinTheme::SolarizedLight => "Solarized (light)"@,
        BuiltinTheme::Base16OceanDark => "base16-ocean.dark"@,
        BuiltinTheme::MonokaiExtended => "Monokai Extended"@,
        BuiltinTheme::Zenburn => "Zenburn"@,
        BuiltinTheme::Dracula => "Dracula"@,
        BuiltinTheme::GruvboxDark => "gruvbox-dark"@,
        BuiltinTheme::GruvboxLight => "gruvbox-light"@,
    }
}

/// The theme that a lowercase name stands for: hyphenated and
/// space-separated spellings of each theme are accepted.
pub open spec fn theme_for(lower: Seq<char>) -> Option<BuiltinTheme> {
    if lower == "solarized-light"@ || lower == "solarized (light)"@ {
        Some(BuiltinTheme::SolarizedLight)
    } else if lower == "base16-ocean-dark"@ || lower == "base16-ocean.dark"@ {
        Some(BuiltinTheme::Base16OceanDark)
    } else if lower == "monokai-extended"@ || lower == "monokai extended"@ {
        Some(BuiltinTheme::MonokaiExtended)
    } else if lower == "zenburn"@ {
        Some(BuiltinTheme::Zenburn)
    } else if lower == "dracula"@ {
        Some(BuiltinTheme::Dracula)
    } else if lower == "gruvbox-dark"@ || lower == "gruvbox dark"@ {
        Some(BuiltinTheme::GruvboxDark)
    } else if lower == "gruvbox-light"@ || lower == "gruvbox light"@ {
        Some(BuiltinTheme::GruvboxLight)
    } else {
        None
    }
}

/// Every built-in theme, in declaration order.
pub open spec fn all_themes() -> Seq<BuiltinTheme> {
    seq![
        BuiltinTheme::SolarizedLight,
        BuiltinTheme::Base16OceanDark,
        BuiltinTheme::MonokaiExtended,
        BuiltinTheme::Zenburn,
        BuiltinTheme::Dracula,
        BuiltinTheme::GruvboxDark,
        BuiltinTheme::GruvboxLight,
    ]
}

fn is(v: &Vec<char>, lit: &str) -> (r: bool)
    ensures
        r == (v@ == lit@),
{
    same_chars(v, &chars_of(lit))
}

/// The theme that an already lowercased name stands for.
pub fn theme_from_lowercase(lower: &str) -> (r: Option<BuiltinTheme>)
    ensures
        r == theme_for(lower@),
{
    let v = chars_of(lower);
    if is(&v, "solarized-light") || is(&v, "solarized (light)") {
        Some(BuiltinTheme::SolarizedLight)
    } else if is(&v, "base16-ocean-dark") || is(&v, "base16-ocean.dark") {
        Some(BuiltinTheme::Base16OceanDark)
    } else if is(&v, "monokai-extended") || is(&v, "monokai extended") {
        Some(BuiltinTheme::MonokaiExtended)
    } else if is(&v, "zenburn") {
        Some(BuiltinTheme::Zenburn)
    } else if is(&v, "dracula") {
        Some(BuiltinTheme::Dracula)
    } else if is(&v, "gruvbox-dark") || is(&v, "gruvbox dark") {
        Some(BuiltinTheme::GruvboxDark)
    } else if is(&v, "gruvbox-light") || is(&v, "gruvbox light") {
        Some(BuiltinTheme::GruvboxLight)
    } else {
        None
    }
}

impl BuiltinTheme {
    /// The highlighter's own name of the theme.
    pub fn as_str(&self) -> (r: &'static str)
        ensures
            r@ == theme_name(*self),
    {
        match self {
            BuiltinTheme::SolarizedLight => "Solarized (light)",
            BuiltinTheme::Base16OceanDark => "base16-ocean.dark",
            BuiltinTheme::MonokaiExtended => "Monokai Extended",
            BuiltinTheme::Zenburn => "Zenburn",
            BuiltinTheme::Dracula => "Dracula",
            BuiltinTheme::GruvboxDark => "gruvbox-dark",
            BuiltinTheme::GruvboxLight => "gruvbox-light",
        }
    }

    /// The theme a name stands for, ignoring case; `ThemeNotFound` carrying
    /// the name when it stands for none.
    pub fn from_name(name: &str) -> (r: Result<BuiltinTheme, HighlightError>)
        ensures
            match r {
                Ok(t) => theme_for(lower_of(name@)) == Some(t),
                Err(e) => theme_for(lower_of(name@)) is None && (e matches HighlightError::ThemeNotFound {
                    name: n,
                } && n@ == name@),
            },
    {
        let lower = lowercase(name);
        match theme_from_lowercase(lower.as_str()) {
            Some(t) => Ok(t),
            None => Err(HighlightError::ThemeNotFound { name: name.to_owned() }),
        }
    }

    /// Every built-in theme, in declaration order.
    pub fn iter() -> (r: Vec<BuiltinTheme>)
        ensures
            r@ == all_themes(),
    {
        let r = vec![
            BuiltinTheme::SolarizedLight,
            BuiltinTheme::Base16OceanDark,
            BuiltinTheme::MonokaiExtended,
            BuiltinTheme::Zenburn,
            BuiltinTheme::Dracula,
            BuiltinTheme::GruvboxDark,
            BuiltinTheme::GruvboxLight,
        ];
        assert(r@ =~= all_themes());
        r
    }
}

/// The names of all built-in themes, in declaration order.
pub fn list_available_themes() -> (r: Vec<String>)
    ensures
        r@.len() == all_themes().len(),
        forall|i: int| 0 <= i < r@.len() ==> #[trigger] r@[i]@ == theme_name(all_themes()[i]),
{
    let themes = BuiltinTheme::iter();
    let mut names: Vec<String> = Vec::new();
    let mut i: usize = 0;
    while i < themes.len()
        invariant
            i <= themes@.len(),
            themes@ == all_themes(),
            names@.len() == i,
            forall|k: int| 0 <= k < i ==> #[trigger] names@[k]@ == theme_name(all_themes()[k]),
        decreases themes@.len() - i,
    {
        names.push(themes[i].as_str().to_owned());
        i = i + 1;
    }
    names
}

} // verus!
