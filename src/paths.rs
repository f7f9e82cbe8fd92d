//! Resolving relative import specifiers: which ones resolve to files of the
//! project, the candidate files tried in order, and folding `.` and `..`
//! out of a path.
use vstd::prelude::*;

use crate::chars::{chars_of, push_str};

verus! {

/// Whether an import specifier names a file of the project (`./x`, `../x`,
/// `/x`) rather than a package.
pub open spec fn is_relative_specifier(s: Seq<char>) -> bool {
    s.len() > 0 && (s[0] == '.' || s[0] == '/')
}

/// Whether `spec` is resolved against the importing file.
pub fn is_relative_import(spec: &str) -> (r: bool)
    ensures
        r == is_relative_specifier(spec@),
{
    let cs = chars_of(spec);
    cs.len() > 0 && (cs[0] == '.' || cs[0] == '/')
}

/// `base` joined with the file name `name` by a `/` (none is added when
/// `base` already ends with one).
pub open spec fn join_path(base: Seq<char>, name: Seq<char>) -> Seq<char> {
    if base.len() > 0 && base.last() == '/' {
        base + name
    } else {
        base + "/"@ + name
    }
}

/// The files tried for an import whose path is `base`, in order: `base`
/// itself, then with `.ts`, `.tsx` and `.d.ts` added, then the `index` file
/// of each of those kinds in the directory `base`.
pub open spec fn candidates(base: Seq<char>) -> Seq<Seq<char>> {
    seq![
        base,
        base + ".ts"@,
        base + ".tsx"@,
        base + ".d.ts"@,
        join_path(base, "index.ts"@),
        join_path(base, "index.tsx"@),
        join_path(base, "index.d.ts"@),
    ]
}

fn joined(base: &str, name: &str, slash: bool) -> (r: String)
    ensures
        r@ == (if slash {
            base@ + "/"@ + name@
        } else {
            base@ + name@
        }),
{
    let mut s = String::new();
    push_str(&mut s, base);
    if slash {
        push_str(&mut s, "/");
    }
    push_str(&mut s, name);
    s
}

/// The candidate files for an import whose path is `base`, in the order
/// they are tried.
pub fn import_candidates(base: &str) -> (r: Vec<String>)
    ensures
        r@.map_values(|s: String| s@) == candidates(base@),
{
    let b = chars_of(base);
    let slash = !(b.len() > 0 && b[b.len() - 1] == '/');
    let mut r: Vec<String> = Vec::new();
    r.push(joined(base, "", false));
    r.push(joined(base, ".ts", false));
    r.push(joined(base, ".tsx", false));
    r.push(joined(base, ".d.ts", false));
    r.push(joined(base, "index.ts", slash));
    r.push(joined(base, "index.tsx", slash));
    r.push(joined(base, "index.d.ts", slash));
    proof {
        reveal_strlit("");
        assert(base@ + ""@ =~= base@);
    }
    assert(r@.map_values(|s: String| s@) =~= candidates(base@));
    r
}

/// One component of a path.
#[derive(Clone, Debug)]
pub enum PathPart {
    /// A prefix or the root: kept as written.
    Anchor(String),
    /// `.`
    CurDir,
    /// `..`
    ParentDir,
    /// A file or directory name.
    Normal(String),
}

/// The components of a path with `.` dropped (but a leading one) and each
/// `..` folded into a name before it; a `..` with no name before it stays.
pub open spec fn normalized(parts: Seq<PathPart>) -> Seq<PathPart>
    decreases parts.len(),
{
    if parts.len() == 0 {
        Seq::empty()
    } else {
        let done = normalized(parts.drop_last());
        match parts.last() {
            PathPart::CurDir => if done.len() == 0 {
                done.push(PathPart::CurDir)
            } else {
                done
            },
            PathPart::ParentDir => if done.len() > 0 && done.last() is Normal {
                done.drop_last()
            } else {
                done.push(PathPart::ParentDir)
            },
            p => done.push(p),
        }
    }
}

/// Folds `.` and `..` out of the components of a path.
pub fn normalize_components(parts: &Vec<PathPart>) -> (r: Vec<PathPart>)
    ensures
        r@ == normalized(parts@),
{
    let mut out: Vec<PathPart> = Vec::new();
    let mut i: usize = 0;
    while i < parts.len()
        invariant
            i <= parts@.len(),
            out@ == normalized(parts@.take(i as int)),
        decreases parts@.len() - i,
    {
        assert(parts@.take(i + 1).drop_last() =~= parts@.take(i as int));
        match &parts[i] {
            PathPart::CurDir => {
                if out.len() == 0 {
                    out.push(PathPart::CurDir);
                }
            },
            PathPart::ParentDir => {
                let last_is_name = out.len() > 0 && match &out[out.len() - 1] {
                    PathPart::Normal(_) => true,
                    _ => false,
                };
                if last_is_name {
                    out.pop();
                } else {
                    out.push(PathPart::ParentDir);
                }
            },
            PathPart::Anchor(a) => out.push(PathPart::Anchor(a.clone())),
            PathPart::Normal(n) => out.push(PathPart::Normal(n.clone())),
        }
        i = i + 1;
        assert(out@ =~= normalized(parts@.take(i as int)));
    }
    assert(parts@.take(i as int) =~= parts@);
    out
}

} // verus!
