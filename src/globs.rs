//! Brace expansion of glob patterns (`{a,b}` alternatives).
use vstd::prelude::*;

use crate::chars::{chars_of, push_chars, push_str};
use crate::colorize::starts_with;
use crate::lines::views;

verus! {

/// Number of occurrences of `c` in `s`.
pub open spec fn count_char(s: Seq<char>, c: char) -> nat
    decreases s.len(),
{
    if s.len() == 0 {
        0
    } else {
        count_char(s.drop_last(), c) + if s.last() == c {
            1nat
        } else {
            0nat
        }
    }
}

/// Index of the first `c` in `s` at or after `from`, if any.
pub open spec fn find_from(s: Seq<char>, c: char, from: int) -> Option<int>
    decreases s.len() - from,
{
    if from < 0 || from >= s.len() {
        None
    } else if s[from] == c {
        Some(from)
    } else {
        find_from(s, c, from + 1)
    }
}

/// The pieces of `s` between commas; always at least one piece.
pub open spec fn split_commas(s: Seq<char>) -> Seq<Seq<char>>
    decreases s.len(),
{
    if s.len() == 0 {
        seq![Seq::<char>::empty()]
    } else {
        let p = split_commas(s.drop_last());
        if s.last() == ',' {
            p.push(Seq::<char>::empty())
        } else {
            p.update(p.len() - 1, p.last().push(s.last()))
        }
    }
}

/// `prefix + o + suffix` for each alternative `o`.
pub open spec fn wrap_all(prefix: Seq<char>, opts: Seq<Seq<char>>, suffix: Seq<char>) -> Seq<Seq<char>>
    decreases opts.len(),
{
    if opts.len() == 0 {
        Seq::empty()
    } else {
        wrap_all(prefix, opts.drop_last(), suffix).push(prefix + opts.last() + suffix)
    }
}

/// Whether `p` has a brace group: a `{` and a `}` after it.
pub open spec fn has_group(p: Seq<char>) -> bool {
    match find_from(p, '{', 0) {
        Some(a) => find_from(p, '}', a) is Some,
        None => false,
    }
}

/// `p` with its first brace group replaced by each of its alternatives, or
/// `p` alone when it has no group.
pub open spec fn expand_once(p: Seq<char>) -> Seq<Seq<char>> {
    match find_from(p, '{', 0) {
        Some(a) => match find_from(p, '}', a) {
            Some(b) => wrap_all(p.take(a), split_commas(p.subrange(a + 1, b)), p.skip(b + 1)),
            None => seq![p],
        },
        None => seq![p],
    }
}

/// One round: every pattern expanded once, in order.
pub open spec fn expand_round(ps: Seq<Seq<char>>) -> Seq<Seq<char>>
    decreases ps.len(),
{
    if ps.len() == 0 {
        Seq::empty()
    } else {
        expand_round(ps.drop_last()) + expand_once(ps.last())
    }
}

pub open spec fn any_group(ps: Seq<Seq<char>>) -> bool {
    exists|i: int| 0 <= i < ps.len() && has_group(#[trigger] ps[i])
}

/// Rounds of expansion until no pattern has a group, at most `fuel` rounds.
pub open spec fn expand_rounds(ps: Seq<Seq<char>>, fuel: nat) -> Seq<Seq<char>>
    decreases fuel,
{
    if fuel == 0 || !any_group(ps) {
        ps
    } else {
        expand_rounds(expand_round(ps), (fuel - 1) as nat)
    }
}

/// `p` starting with `./`.
pub open spec fn dot_relative(p: Seq<char>) -> Seq<char> {
    if starts_with(p, "./"@) {
        p
    } else {
        "./"@ + p
    }
}

/// Every brace alternative of `pattern`, each starting with `./`. Each
/// round removes a `}` from every pattern it changes, so as many rounds as
/// `pattern` has `}` (plus one) expand it fully.
pub open spec fn expanded(pattern: Seq<char>) -> Seq<Seq<char>> {
    expand_rounds(seq![pattern], count_char(pattern, '}') + 1).map_values(
        |p: Seq<char>| dot_relative(p),
    )
}

fn find_char(s: &Vec<char>, c: char, from: usize) -> (r: Option<usize>)
    requires
        from <= s@.len(),
    ensures
        match r {
            Some(i) => find_from(s@, c, from as int) == Some(i as int) && from <= i < s@.len()
                && s@[i as int] == c,
            None => find_from(s@, c, from as int) is None,
        },
    decreases s@.len() - from,
{
    if from >= s.len() {
        return None;
    }
    if s[from] == c {
        return Some(from);
    }
    find_char(s, c, from + 1)
}

fn slice_chars(s: &Vec<char>, a: usize, b: usize) -> (r: Vec<char>)
    requires
        a <= b <= s@.len(),
    ensures
        r@ == s@.subrange(a as int, b as int),
{
    let mut r: Vec<char> = Vec::new();
    let mut i: usize = a;
    while i < b
        invariant
            a <= i <= b <= s@.len(),
            r@ == s@.subrange(a as int, i as int),
        decreases b - i,
    {
        r.push(s[i]);
        i = i + 1;
        assert(r@ =~= s@.subrange(a as int, i as int));
    }
    r
}

fn split_on_commas(s: &Vec<char>) -> (r: Vec<Vec<char>>)
    ensures
        views(r@) == split_commas(s@),
{
    let mut done: Vec<Vec<char>> = Vec::new();
    let mut cur: Vec<char> = Vec::new();
    let mut i: usize = 0;
    assert(s@.take(0) =~= Seq::<char>::empty());
    while i < s.len()
        invariant
            i <= s@.len(),
            split_commas(s@.take(i as int)).len() == done@.len() + 1,
            forall|j: int|
                0 <= j < done@.len() ==> done@[j]@ == #[trigger] split_commas(s@.take(i as int))[j],
            cur@ == split_commas(s@.take(i as int)).last(),
        decreases s@.len() - i,
    {
        let ghost prev = split_commas(s@.take(i as int));
        assert(s@.take(i + 1).drop_last() =~= s@.take(i as int));
        let c = s[i];
        if c == ',' {
            done.push(cur);
            cur = Vec::new();
            assert(cur@ =~= Seq::<char>::empty());
        } else {
            cur.push(c);
        }
        i = i + 1;
        assert forall|j: int| 0 <= j < done@.len() implies done@[j]@
            == #[trigger] split_commas(s@.take(i as int))[j] by {
            if j < done@.len() - 1 || c != ',' {
                assert(split_commas(s@.take(i as int))[j] == prev[j]);
            }
        }
    }
    assert(s@.take(i as int) =~= s@);
    done.push(cur);
    assert(views(done@) =~= split_commas(s@));
    done
}

fn expand_one(p: &Vec<char>, out: &mut Vec<Vec<char>>) -> (changed: bool)
    ensures
        views(final(out)@) == views(old(out)@) + expand_once(p@),
        changed == has_group(p@),
{
    let ghost start = views(out@);
    match find_char(p, '{', 0) {
        Some(a) => match find_char(p, '}', a) {
            Some(b) => {
                assert(b < p.len());
                let prefix = slice_chars(p, 0, a);
                let suffix = slice_chars(p, b + 1, p.len());
                let inner = slice_chars(p, a + 1, b);
                let opts = split_on_commas(&inner);
                assert(prefix@ =~= p@.take(a as int));
                assert(suffix@ =~= p@.skip(b + 1));
                let mut k: usize = 0;
                while k < opts.len()
                    invariant
                        k <= opts@.len(),
                        views(out@) == start + wrap_all(prefix@, views(opts@).take(k as int), suffix@),
                    decreases opts@.len() - k,
                {
                    let mut s = String::new();
                    push_chars(&mut s, &prefix);
                    push_chars(&mut s, &opts[k]);
                    push_chars(&mut s, &suffix);
                    let item = chars_of(s.as_str());
                    let ghost before = views(out@);
                    out.push(item);
                    assert(views(out@) =~= before.push(prefix@ + views(opts@)[k as int] + suffix@));
                    k = k + 1;
                    assert(views(opts@).take(k as int).drop_last() =~= views(opts@).take(k - 1));
                }
                assert(views(opts@).take(k as int) =~= views(opts@));
                true
            },
            None => {
                let ghost before = views(out@);
                out.push(copy(p));
                assert(views(out@) =~= before.push(p@));
                false
            },
        },
        None => {
            let ghost before = views(out@);
            out.push(copy(p));
            assert(views(out@) =~= before.push(p@));
            false
        },
    }
}

fn copy(p: &Vec<char>) -> (r: Vec<char>)
    ensures
        r@ == p@,
{
    slice_chars(p, 0, p.len())
}

fn count_closing(p: &Vec<char>) -> (n: usize)
    ensures
        n == count_char(p@, '}'),
{
    let mut n: usize = 0;
    let mut i: usize = 0;
    while i < p.len()
        invariant
            i <= p@.len(),
            n == count_char(p@.take(i as int), '}'),
            n <= i,
        decreases p@.len() - i,
    {
        assert(p@.take(i + 1).drop_last() =~= p@.take(i as int));
        if p[i] == '}' {
            n = n + 1;
        }
        i = i + 1;
    }
    assert(p@.take(i as int) =~= p@);
    n
}

/// Expands the brace groups of a glob pattern (`{src,scripts}/*.{ts,tsx}`
/// gives four patterns, in order) and starts each with `./`.
pub fn expand_braces(pattern: &str) -> (r: Vec<String>)
    ensures
        r@.map_values(|s: String| s@) == expanded(pattern@),
{
    let p = chars_of(pattern);
    let closing = count_closing(&p);
    let mut result: Vec<Vec<char>> = vec![p];
    assert(views(result@) =~= seq![pattern@]);
    let mut fuel: u128 = closing as u128 + 1;
    let ghost target = expand_rounds(seq![pattern@], fuel as nat);
    let mut done = false;
    while !done && fuel > 0
        invariant
            expand_rounds(views(result@), fuel as nat) == target,
            done ==> !any_group(views(result@)),
        decreases fuel,
    {
        let mut next: Vec<Vec<char>> = Vec::new();
        let mut changed = false;
        let mut i: usize = 0;
        while i < result.len()
            invariant
                i <= result@.len(),
                views(next@) == expand_round(views(result@).take(i as int)),
                changed == any_group(views(result@).take(i as int)),
            decreases result@.len() - i,
        {
            let c = expand_one(&result[i], &mut next);
            let ghost t = views(result@).take(i + 1);
            assert(t.drop_last() =~= views(result@).take(i as int));
            changed = changed || c;
            i = i + 1;
            assert(changed == any_group(t)) by {
                if changed {
                    if c {
                        assert(has_group(t[i - 1]));
                    } else {
                        let j = choose|j: int| 0 <= j < i - 1 && has_group(#[trigger] t.drop_last()[j]);
                        assert(t[j] == t.drop_last()[j]);
                    }
                } else {
                    assert forall|j: int| 0 <= j < t.len() implies !has_group(#[trigger] t[j]) by {
                        if j < i - 1 {
                            assert(t[j] == t.drop_last()[j]);
                        }
                    }
                }
            }
        }
        assert(views(result@).take(i as int) =~= views(result@));
        if changed {
            result = next;
        } else {
            done = true;
        }
        fuel = fuel - 1;
    }
    let mut out: Vec<String> = Vec::new();
    let mut k: usize = 0;
    while k < result.len()
        invariant
            k <= result@.len(),
            out@.map_values(|s: String| s@) == views(result@).take(k as int).map_values(
                |q: Seq<char>| dot_relative(q),
            ),
        decreases result@.len() - k,
    {
        let q = &result[k];
        let mut s = String::new();
        let dotted = q.len() >= 2 && q[0] == '.' && q[1] == '/';
        proof {
            reveal_strlit("./");
        }
        if !dotted {
            push_str(&mut s, "./");
        }
        push_chars(&mut s, q);
        if q.len() >= 2 {
            assert(q@.take(2)[0] == q@[0] && q@.take(2)[1] == q@[1]);
        }
        assert(dotted == starts_with(q@, "./"@)) by {
            if dotted {
                assert(q@.take(2) =~= "./"@);
            }
        }
        assert(s@ == dot_relative(q@));
        let ghost before = out@.map_values(|s: String| s@);
        out.push(s);
        assert(out@.map_values(|s: String| s@) =~= before.push(dot_relative(q@)));
        k = k + 1;
        assert(views(result@).take(k as int).map_values(|q: Seq<char>| dot_relative(q))
            =~= views(result@).take(k - 1).map_values(|q: Seq<char>| dot_relative(q)).push(
            dot_relative(views(result@)[k - 1]),
        ));
    }
    assert(views(result@).take(k as int) =~= views(result@));
    out
}

} // verus!
