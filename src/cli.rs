//! Command-line arguments and errors, and the rules that select files and
//! symbols for the commands.
use std::path::PathBuf;
use vstd::prelude::*;

use crate::chars::{chars_of, push_str};
use crate::colorize::starts_with;
use crate::error::Error as LibError;
use crate::lines::{contains, contains_chars};

verus! {

/// Arguments of the `deps` command.
#[derive(Clone, Debug)]
pub struct DepsArgs {
    /// Filters matched against source file paths (any one suffices).
    pub filters: Vec<String>,
    /// Only show external dependencies.
    pub external_only: bool,
}

/// Arguments of the `file` command.
#[derive(Clone, Debug)]
pub struct FileArgs {
    pub filters: Vec<String>,
}

/// Arguments of the `symbols` command.
#[derive(Clone, Debug)]
pub struct SymbolsArgs {
    pub filters: Vec<String>,
    /// Filter on symbol names; a leading `!` negates it.
    pub symbol_filter: Option<String>,
    pub exported_only: bool,
}

/// Arguments of the `test` command.
#[derive(Clone, Debug)]
pub struct TestArgs {
    pub filters: Vec<String>,
    /// Only show failing tests.
    pub failing: bool,
}

/// Arguments of the `watch` command.
#[derive(Debug)]
pub struct WatchArgs {
    /// Paths to watch.
    pub paths: Vec<PathBuf>,
}

/// Errors of the command-line tool.
#[derive(Debug)]
pub enum Error {
    Config(String),
    Analysis(LibError),
    Io(std::io::Error),
    InvalidArgs(String),
}

pub open spec fn ends_with(s: Seq<char>, p: Seq<char>) -> bool {
    p.len() <= s.len() && s.skip(s.len() - p.len()) == p
}

/// A TypeScript file of the project: under `src/` or `scripts/`, ending in
/// `.ts` or `.tsx`, and, unless tests are included, not a `.test` or `.spec`
/// file.
pub open spec fn selected_file(path: Seq<char>, include_tests: bool) -> bool {
    &&& (contains(path, "/src/"@) || contains(path, "/scripts/"@) || starts_with(path, "src/"@)
        || starts_with(path, "scripts/"@))
    &&& (ends_with(path, ".ts"@) || ends_with(path, ".tsx"@))
    &&& (include_tests || !(ends_with(path, ".test.ts"@) || ends_with(path, ".spec.ts"@) || ends_with(
        path,
        ".test.tsx"@,
    ) || ends_with(path, ".spec.tsx"@)))
}

/// A TypeScript source file of the project that is not a test file.
pub open spec fn is_source_file(path: Seq<char>) -> bool {
    selected_file(path, false)
}

/// Whether `path` passes the filters: no filters, or one of them occurs in
/// it.
pub open spec fn passes_filters(path: Seq<char>, filters: Seq<String>) -> bool {
    filters.len() == 0 || exists|i: int| 0 <= i < filters.len() && contains(path, #[trigger] filters[i]@)
}

/// Whether a symbol name passes a name filter: `!x` keeps names without
/// `x`, any other filter keeps names that contain it.
pub open spec fn name_passes(name: Seq<char>, filter: Seq<char>) -> bool {
    if filter.len() > 0 && filter[0] == '!' {
        !contains(name, filter.drop_first())
    } else {
        contains(name, filter)
    }
}

fn starts_with_chars(s: &Vec<char>, p: &Vec<char>) -> (r: bool)
    ensures
        r == starts_with(s@, p@),
{
    if p.len() > s.len() {
        return false;
    }
    let mut i: usize = 0;
    while i < p.len()
        invariant
            p@.len() <= s@.len(),
            i <= p@.len(),
            forall|j: int| 0 <= j < i ==> s@[j] == p@[j],
        decreases p@.len() - i,
    {
        if s[i] != p[i] {
            assert(s@.take(p@.len() as int)[i as int] != p@[i as int]);
            return false;
        }
        i = i + 1;
    }
    assert(s@.take(p@.len() as int) =~= p@);
    true
}

fn ends_with_chars(s: &Vec<char>, p: &Vec<char>) -> (r: bool)
    ensures
        r == ends_with(s@, p@),
{
    if p.len() > s.len() {
        return false;
    }
    let off = s.len() - p.len();
    let mut i: usize = 0;
    while i < p.len()
        invariant
            p@.len() <= s@.len(),
            off == s@.len() - p@.len(),
            i <= p@.len(),
            forall|j: int| 0 <= j < i ==> s@[off + j] == p@[j],
        decreases p@.len() - i,
    {
        assert(off + i < s.len());
        if s[off + i] != p[i] {
            assert(s@.skip(off as int)[i as int] != p@[i as int]);
            return false;
        }
        i = i + 1;
    }
    assert(s@.skip(off as int) =~= p@);
    true
}

/// Whether `path` names a TypeScript source file of the project.
pub fn is_source_path(path: &str) -> (r: bool)
    ensures
        r == is_source_file(path@),
{
    select_path(path, false)
}

/// Whether `path` names a TypeScript file of the project, test files
/// counting only when `include_tests`.
pub fn select_path(path: &str, include_tests: bool) -> (r: bool)
    ensures
        r == selected_file(path@, include_tests),
{
    let p = chars_of(path);
    let in_source_dir = contains_chars(&p, &chars_of("/src/")) || contains_chars(
        &p,
        &chars_of("/scripts/"),
    ) || starts_with_chars(&p, &chars_of("src/")) || starts_with_chars(&p, &chars_of("scripts/"));
    let typescript = ends_with_chars(&p, &chars_of(".ts")) || ends_with_chars(&p, &chars_of(".tsx"));
    let test_file = ends_with_chars(&p, &chars_of(".test.ts")) || ends_with_chars(
        &p,
        &chars_of(".spec.ts"),
    ) || ends_with_chars(&p, &chars_of(".test.tsx")) || ends_with_chars(
        &p,
        &chars_of(".spec.tsx"),
    );
    in_source_dir && typescript && (include_tests || !test_file)
}

/// Whether `path` passes the path filters (any one of them suffices; no
/// filters pass everything).
pub fn matches_filters(path: &str, filters: &Vec<String>) -> (r: bool)
    ensures
        r == passes_filters(path@, filters@),
{
    if filters.len() == 0 {
        return true;
    }
    let p = chars_of(path);
    let mut i: usize = 0;
    while i < filters.len()
        invariant
            i <= filters@.len(),
            p@ == path@,
            forall|j: int| 0 <= j < i ==> !contains(path@, #[trigger] filters@[j]@),
        decreases filters@.len() - i,
    {
        if contains_chars(&p, &chars_of(filters[i].as_str())) {
            return true;
        }
        i = i + 1;
    }
    false
}

/// Whether a symbol name passes a name filter; a leading `!` negates the
/// filter.
pub fn symbol_name_matches(name: &str, filter: &str) -> (r: bool)
    ensures
        r == name_passes(name@, filter@),
{
    let n = chars_of(name);
    let f = chars_of(filter);
    if f.len() > 0 && f[0] == '!' {
        let mut rest: Vec<char> = Vec::new();
        let mut i: usize = 1;
        while i < f.len()
            invariant
                1 <= i <= f@.len(),
                rest@ == f@.subrange(1, i as int),
            decreases f@.len() - i,
        {
            rest.push(f[i]);
            i = i + 1;
            assert(rest@ =~= f@.subrange(1, i as int));
        }
        assert(rest@ =~= f@.drop_first());
        !contains_chars(&n, &rest)
    } else {
        contains_chars(&n, &f)
    }
}

impl Error {
    /// The human-readable message of the error.
    pub fn to_string(&self) -> (r: String)
        ensures
            match self {
                Error::Config(m) => r@ == "Configuration error: "@ + m@,
                Error::Analysis(_) => r@.len() >= "Analysis failed: "@.len() && r@.take(
                    "Analysis failed: "@.len() as int,
                ) == "Analysis failed: "@,
                Error::Io(_) => r@.len() >= "I/O error: "@.len() && r@.take("I/O error: "@.len() as int)
                    == "I/O error: "@,
                Error::InvalidArgs(m) => r@ == "Invalid arguments: "@ + m@,
            },
    {
        let mut s = String::new();
        match self {
            Error::Config(m) => {
                push_str(&mut s, "Configuration error: ");
                push_str(&mut s, m.as_str());
            },
            Error::Analysis(e) => {
                push_str(&mut s, "Analysis failed: ");
                let ghost prefix = s@;
                let detail = e.to_string();
                push_str(&mut s, detail.as_str());
                assert(s@.take(prefix.len() as int) =~= prefix);
            },
            Error::Io(e) => {
                push_str(&mut s, "I/O error: ");
                let ghost prefix = s@;
                let detail = crate::error::io_error_text(e);
                push_str(&mut s, detail.as_str());
                assert(s@.take(prefix.len() as int) =~= prefix);
            },
            Error::InvalidArgs(m) => {
                push_str(&mut s, "Invalid arguments: ");
                push_str(&mut s, m.as_str());
            },
        }
        s
    }
}

/// A pattern made more permissive: one with `/` or `**`, or starting with
/// `{` or `[`, is kept; otherwise `*` is added at each end that does not
/// already start or end with `*` or `?`.
pub open spec fn normalized_glob(p: Seq<char>) -> Seq<char> {
    if contains(p, "/"@) || contains(p, "**"@) || starts_with(p, "{"@) || starts_with(p, "["@) {
        p
    } else {
        let glob_start = starts_with(p, "*"@) || starts_with(p, "?"@);
        let glob_end = ends_with(p, "*"@) || ends_with(p, "?"@);
        (if glob_start {
            Seq::<char>::empty()
        } else {
            "*"@
        }) + p + (if glob_end {
            Seq::<char>::empty()
        } else {
            "*"@
        })
    }
}

/// Adds wildcards to a plain search pattern so that it matches anywhere in
/// a name; patterns that already use glob syntax are kept.
pub fn normalize_glob_pattern(pattern: &str) -> (r: String)
    ensures
        r@ == normalized_glob(pattern@),
{
    let p = chars_of(pattern);
    if contains_chars(&p, &chars_of("/")) || contains_chars(&p, &chars_of("**"))
        || starts_with_chars(&p, &chars_of("{")) || starts_with_chars(&p, &chars_of("[")) {
        return pattern.to_owned();
    }
    let glob_start = starts_with_chars(&p, &chars_of("*")) || starts_with_chars(&p, &chars_of("?"));
    let glob_end = ends_with_chars(&p, &chars_of("*")) || ends_with_chars(&p, &chars_of("?"));
    let mut s = String::new();
    if !glob_start {
        push_str(&mut s, "*");
    }
    push_str(&mut s, pattern);
    if !glob_end {
        push_str(&mut s, "*");
    }
    s
}

/// Whether a type error passes an error filter: `!x` keeps errors whose
/// message and scope both lack `x`; any other filter keeps errors whose
/// message or scope contains it.
pub open spec fn error_passes(message: Seq<char>, scope: Seq<char>, filter: Seq<char>) -> bool {
    if filter.len() > 0 && filter[0] == '!' {
        !contains(message, filter.drop_first()) && !contains(scope, filter.drop_first())
    } else {
        contains(message, filter) || contains(scope, filter)
    }
}

/// Whether a type error with `message` and `scope` passes `filter`.
pub fn error_matches(message: &str, scope: &str, filter: &str) -> (r: bool)
    ensures
        r == error_passes(message@, scope@, filter@),
{
    let m = chars_of(message);
    let sc = chars_of(scope);
    let f = chars_of(filter);
    if f.len() > 0 && f[0] == '!' {
        let rest = drop_first_char(&f);
        !contains_chars(&m, &rest) && !contains_chars(&sc, &rest)
    } else {
        contains_chars(&m, &f) || contains_chars(&sc, &f)
    }
}

fn drop_first_char(f: &Vec<char>) -> (r: Vec<char>)
    requires
        f@.len() > 0,
    ensures
        r@ == f@.drop_first(),
{
    let mut rest: Vec<char> = Vec::new();
    let mut i: usize = 1;
    while i < f.len()
        invariant
            1 <= i <= f@.len(),
            rest@ == f@.subrange(1, i as int),
        decreases f@.len() - i,
    {
        rest.push(f[i]);
        i = i + 1;
        assert(rest@ =~= f@.subrange(1, i as int));
    }
    assert(rest@ =~= f@.drop_first());
    rest
}

} // verus!
