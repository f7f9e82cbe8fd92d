//! Text taken from around declarations: documentation comments (`/** ...
//! */`) written just before them, and type annotations.
use vstd::prelude::*;
use vstd::string::*;

use crate::chars::{chars_of, join_strings, join_with, push_chars, texts};
use crate::colorize::starts_with;
use crate::lines::{lines_of, occurs_at, split_lines, trim, trim_chars, trim_end, views};
use crate::span::SourceSpan;
use crate::error_annotations::span_chars;
use crate::markdown::opt_view;
use crate::text::{extract_span_text, fits, lemma_encode_injective, span_fits};

verus! {

/// `s` without any number of leading copies of `p`.
pub open spec fn strip_repeated(s: Seq<char>, p: Seq<char>) -> Seq<char>
    decreases s.len(),
{
    if p.len() > 0 && starts_with(s, p) {
        strip_repeated(s.skip(p.len() as int), p)
    } else {
        s
    }
}

/// One comment line cleaned: trimmed, leading `/**`, `*/` and `*` runs
/// removed, trimmed again.
pub open spec fn clean_doc_line(l: Seq<char>) -> Seq<char> {
    trim(strip_repeated(strip_repeated(strip_repeated(trim(l), "/**"@), "*/"@), "*"@))
}

/// The cleaned lines that are not empty, in order.
pub open spec fn cleaned_lines(ls: Seq<Seq<char>>) -> Seq<Seq<char>>
    decreases ls.len(),
{
    if ls.len() == 0 {
        Seq::empty()
    } else {
        let c = clean_doc_line(ls.last());
        cleaned_lines(ls.drop_last()) + if c.len() > 0 {
            seq![c]
        } else {
            Seq::<Seq<char>>::empty()
        }
    }
}

/// The last position of `p` in `s`, if any.
pub open spec fn last_occurrence(s: Seq<char>, p: Seq<char>) -> Option<int> {
    if exists|i: int| occurs_at(s, p, i) {
        Some(choose|i: int| occurs_at(s, p, i) && forall|j: int| i < j ==> !occurs_at(s, p, j))
    } else {
        None
    }
}

pub open spec fn ends_with_seq(s: Seq<char>, p: Seq<char>) -> bool {
    p.len() <= s.len() && s.skip(s.len() - p.len()) == p
}

/// The documentation comment that `before` (the text before a declaration)
/// ends with: from the last `/**` of the trimmed text, when that text ends
/// with `*/`, the cleaned non-empty lines joined by spaces; none when that
/// is empty.
pub open spec fn doc_comment(before: Seq<char>) -> Option<Seq<char>> {
    let t = trim_end(before);
    if !ends_with_seq(t, "*/"@) {
        None
    } else {
        match last_occurrence(t, "/**"@) {
            None => None,
            Some(i) => {
                let cleaned = join_with(cleaned_lines(lines_of(t.skip(i))), " "@);
                if cleaned.len() > 0 {
                    Some(cleaned)
                } else {
                    None
                }
            },
        }
    }
}

fn strip_repeated_chars(s: &Vec<char>, p: &Vec<char>) -> (r: Vec<char>)
    ensures
        r@ == strip_repeated(s@, p@),
{
    let mut a: usize = 0;
    assert(s@.skip(0) =~= s@);
    while p.len() > 0 && p.len() <= s.len() - a && same_at(s, a, p)
        invariant
            a <= s@.len(),
            strip_repeated(s@, p@) == strip_repeated(s@.skip(a as int), p@),
        decreases s@.len() - a,
    {
        assert(s@.skip(a as int).skip(p@.len() as int) =~= s@.skip(a + p@.len()));
        assert(starts_with(s@.skip(a as int), p@)) by {
            assert(s@.skip(a as int).take(p@.len() as int) =~= p@);
        }
        a = a + p.len();
    }
    let ghost rest = s@.skip(a as int);
    if !(p.len() > 0 && p.len() <= s.len() - a) {
        assert(!(p@.len() > 0 && starts_with(rest, p@)));
    } else {
        assert(!starts_with(rest, p@)) by {
            if starts_with(rest, p@) {
                assert forall|m: int| 0 <= m < p@.len() implies s@[a + m] == p@[m] by {
                    assert(rest.take(p@.len() as int)[m] == s@[a + m]);
                }
            }
        }
    }
    let mut r: Vec<char> = Vec::new();
    let mut k: usize = a;
    while k < s.len()
        invariant
            a <= k <= s@.len(),
            r@ == s@.subrange(a as int, k as int),
        decreases s@.len() - k,
    {
        r.push(s[k]);
        k = k + 1;
        assert(r@ =~= s@.subrange(a as int, k as int));
    }
    assert(r@ =~= rest);
    r
}

fn same_at(s: &Vec<char>, a: usize, p: &Vec<char>) -> (r: bool)
    requires
        a + p@.len() <= s@.len(),
    ensures
        r == (forall|m: int| 0 <= m < p@.len() ==> s@[a + m] == p@[m]),
{
    let mut m: usize = 0;
    while m < p.len()
        invariant
            a + p@.len() <= s@.len(),
            m <= p@.len(),
            forall|j: int| 0 <= j < m ==> s@[a + j] == p@[j],
        decreases p@.len() - m,
    {
        assert(a + m < s.len());
        if s[a + m] != p[m] {
            return false;
        }
        m = m + 1;
    }
    true
}

fn clean_line(l: &Vec<char>) -> (r: Vec<char>)
    ensures
        r@ == clean_doc_line(l@),
{
    let t = trim_chars(l);
    let a = strip_repeated_chars(&t, &chars_of("/**"));
    let b = strip_repeated_chars(&a, &chars_of("*/"));
    let c = strip_repeated_chars(&b, &chars_of("*"));
    trim_chars(&c)
}

fn last_position(s: &Vec<char>, p: &Vec<char>) -> (r: Option<usize>)
    requires
        p@.len() > 0,
    ensures
        match r {
            Some(i) => last_occurrence(s@, p@) == Some(i as int) && i + p@.len() <= s@.len(),
            None => last_occurrence(s@, p@) is None,
        },
{
    if p.len() > s.len() {
        assert forall|i: int| !occurs_at(s@, p@, i) by {}
        return None;
    }
    let mut i: usize = s.len() - p.len() + 1;
    while i > 0
        invariant
            i <= s@.len() - p@.len() + 1,
            p@.len() <= s@.len(),
            forall|j: int| i <= j ==> !occurs_at(s@, p@, j),
        decreases i,
    {
        let k = i - 1;
        if same_at(s, k, p) {
            assert(s@.subrange(k as int, k + p@.len()) =~= p@);
            assert(occurs_at(s@, p@, k as int));
            let ghost c = choose|c: int| occurs_at(s@, p@, c) && forall|j: int| c < j ==> !occurs_at(s@, p@, j);
            assert(c == k) by {
                if c < k {
                    assert(!occurs_at(s@, p@, k as int));
                }
            }
            return Some(k);
        }
        assert(!occurs_at(s@, p@, k as int)) by {
            if occurs_at(s@, p@, k as int) {
                assert forall|m: int| 0 <= m < p@.len() implies s@[k + m] == p@[m] by {
                    assert(s@.subrange(k as int, k + p@.len())[m] == s@[k + m]);
                }
            }
        }
        i = k;
    }
    None
}

/// The documentation comment just before byte offset `start` of `source`,
/// cleaned to one line; none when `start` is 0 or does not fall on a
/// character boundary of the text.
pub fn extract_jsdoc(source: &str, start: u32) -> (r: Option<String>)
    requires
        fits(source@),
    ensures
        opt_view(r) == (if start > 0 && span_fits(
            source.spec_bytes(),
            SourceSpan { start: 0, end: start },
        ) {
            doc_comment(span_chars(source@, SourceSpan { start: 0, end: start }))
        } else {
            None
        }),
{
    if start == 0 {
        return None;
    }
    let before = match extract_span_text(source, SourceSpan::new(0, start)) {
        Ok(b) => b,
        Err(_) => {
            return None;
        },
    };
    proof {
        let t = span_chars(source@, SourceSpan { start: 0, end: start });
        lemma_encode_injective(before@, t);
    }
    let chars = chars_of(before.as_str());
    doc_of_text(&chars)
}

/// The cleaned comment lines of `doc`, joined by spaces; none when no line
/// is left.
fn cleaned_text(doc: &Vec<char>) -> (r: Option<String>)
    ensures
        opt_view(r) == (if join_with(cleaned_lines(lines_of(doc@)), " "@).len() > 0 {
            Some(join_with(cleaned_lines(lines_of(doc@)), " "@))
        } else {
            None
        }),
{
    let ls = split_lines(doc);
    let mut parts: Vec<String> = Vec::new();
    let mut j: usize = 0;
    while j < ls.len()
        invariant
            j <= ls@.len(),
            texts(parts@) == cleaned_lines(views(ls@).take(j as int)),
        decreases ls@.len() - j,
    {
        let c = clean_line(&ls[j]);
        let ghost before_parts = texts(parts@);
        assert(views(ls@).take(j + 1).drop_last() =~= views(ls@).take(j as int));
        if c.len() > 0 {
            let mut s = String::new();
            push_chars(&mut s, &c);
            parts.push(s);
            assert(texts(parts@) =~= before_parts.push(c@));
        }
        j = j + 1;
    }
    assert(views(ls@).take(j as int) =~= views(ls@));
    let joined = join_strings(&parts, " ");
    if parts.len() == 0 {
        assert(texts(parts@) =~= Seq::<Seq<char>>::empty());
        return None;
    }
    proof {
        lemma_cleaned_nonempty(views(ls@));
        lemma_join_nonempty(texts(parts@));
    }
    Some(joined)
}

/// The documentation comment that the text `chars` ends with.
fn doc_of_text(chars: &Vec<char>) -> (r: Option<String>)
    ensures
        opt_view(r) == doc_comment(chars@),
{
    let t = trim_end_chars(chars);
    if !(t.len() >= 2 && t[t.len() - 2] == '*' && t[t.len() - 1] == '/') {
        proof {
            reveal_strlit("*/");
            if ends_with_seq(t@, "*/"@) {
                assert(t@.skip(t@.len() - 2)[0] == t@[t@.len() - 2]);
                assert(t@.skip(t@.len() - 2)[1] == t@[t@.len() - 1]);
            }
        }
        return None;
    }
    proof {
        reveal_strlit("*/");
        assert(t@.skip(t@.len() - 2) =~= "*/"@);
    }
    let open = chars_of("/**");
    proof {
        reveal_strlit("/**");
    }
    let i = match last_position(&t, &open) {
        Some(i) => i,
        None => {
            return None;
        },
    };
    let mut doc: Vec<char> = Vec::new();
    let mut k: usize = i;
    while k < t.len()
        invariant
            i <= k <= t@.len(),
            doc@ == t@.subrange(i as int, k as int),
        decreases t@.len() - k,
    {
        doc.push(t[k]);
        k = k + 1;
        assert(doc@ =~= t@.subrange(i as int, k as int));
    }
    assert(doc@ =~= t@.skip(i as int));
    cleaned_text(&doc)
}

proof fn lemma_join_nonempty(ps: Seq<Seq<char>>)
    requires
        ps.len() > 0,
        forall|i: int| 0 <= i < ps.len() ==> #[trigger] ps[i].len() > 0,
    ensures
        join_with(ps, " "@).len() > 0,
    decreases ps.len(),
{
    if ps.len() > 1 {
        lemma_join_nonempty(ps.drop_last());
    }
}

proof fn lemma_cleaned_nonempty(ls: Seq<Seq<char>>)
    ensures
        forall|i: int| 0 <= i < cleaned_lines(ls).len() ==> #[trigger] cleaned_lines(ls)[i].len() > 0,
    decreases ls.len(),
{
    if ls.len() > 0 {
        lemma_cleaned_nonempty(ls.drop_last());
        let p = cleaned_lines(ls.drop_last());
        assert forall|i: int| 0 <= i < cleaned_lines(ls).len() implies #[trigger] cleaned_lines(ls)[i].len() > 0 by {
            if i < p.len() {
                assert(cleaned_lines(ls)[i] == p[i]);
            }
        }
    }
}

fn trim_end_chars(s: &Vec<char>) -> (r: Vec<char>)
    ensures
        r@ == trim_end(s@),
{
    let mut b: usize = s.len();
    assert(s@.subrange(0, s@.len() as int) =~= s@);
    while b > 0 && crate::lines::is_space_char(s[b - 1])
        invariant
            b <= s@.len(),
            trim_end(s@) == trim_end(s@.subrange(0, b as int)),
        decreases b,
    {
        assert(s@.subrange(0, b as int).drop_last() =~= s@.subrange(0, b - 1));
        b = b - 1;
    }
    let mut r: Vec<char> = Vec::new();
    let mut k: usize = 0;
    while k < b
        invariant
            k <= b <= s@.len(),
            r@ == s@.subrange(0, k as int),
        decreases b - k,
    {
        r.push(s[k]);
        k = k + 1;
        assert(r@ =~= s@.subrange(0, k as int));
    }
    r
}

/// A type annotation's text: leading `:` marks removed, then trimmed.
pub open spec fn annotation_of(text: Seq<char>) -> Seq<char> {
    trim(strip_repeated(text, ":"@))
}

/// The type written in the annotation at `span` of `source` (its text
/// without the leading `:` and surrounding whitespace); `fallback` stands in
/// for the text when the span cannot be cut out of the source.
pub fn annotation_text(source: &str, span: SourceSpan, fallback: &str) -> (r: String)
    requires
        fits(source@),
    ensures
        r@ == annotation_of(
            if span_fits(source.spec_bytes(), span) {
                span_chars(source@, span)
            } else {
                fallback@
            },
        ),
{
    let text = match extract_span_text(source, span) {
        Ok(t) => {
            proof {
                lemma_encode_injective(t@, span_chars(source@, span));
            }
            chars_of(t.as_str())
        },
        Err(_) => chars_of(fallback),
    };
    let stripped = strip_repeated_chars(&text, &chars_of(":"));
    let trimmed = trim_chars(&stripped);
    let mut out = String::new();
    push_chars(&mut out, &trimmed);
    out
}

} // verus!
