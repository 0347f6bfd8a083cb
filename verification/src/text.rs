//! Splitting and joining of character sequences.
//!
//! The document format is line- and comma-oriented, so everything in the
//! crate is stated over these spec functions: `spec_split` cuts a sequence at
//! every occurrence of a separator, `spec_splitn` stops after a bounded
//! number of cuts, and `spec_join` is their inverse.  The executable
//! functions mirror them exactly.

use vstd::prelude::*;

verus! {

pub open spec fn no_char(s: Seq<char>, c: char) -> bool {
    forall|i: int| 0 <= i < s.len() ==> s[i] != c
}

/// The pieces of `s` between occurrences of the separator `c`.
/// There is always at least one piece; a separator at either end or two
/// adjacent separators give empty pieces, as `str::split` does.
pub open spec fn spec_split(s: Seq<char>, c: char) -> Seq<Seq<char>>
    decreases s.len(),
{
    if s.len() == 0 {
        seq![Seq::<char>::empty()]
    } else {
        let init = spec_split(s.drop_last(), c);
        if s.last() == c {
            init.push(Seq::<char>::empty())
        } else {
            init.update(init.len() - 1, init.last().push(s.last()))
        }
    }
}

/// The pieces glued back together with the separator between them.
pub open spec fn spec_join(parts: Seq<Seq<char>>, c: char) -> Seq<char>
    decreases parts.len(),
{
    if parts.len() == 0 {
        Seq::<char>::empty()
    } else if parts.len() == 1 {
        parts[0]
    } else {
        spec_join(parts.drop_last(), c) + seq![c] + parts.last()
    }
}

/// Splitting into at most `n` pieces: only the first `n - 1` separators cut,
/// the rest of the text stays whole in the last piece.
pub open spec fn spec_splitn(s: Seq<char>, c: char, n: nat) -> Seq<Seq<char>>
    recommends
        n >= 1,
{
    let parts = spec_split(s, c);
    if parts.len() <= n {
        parts
    } else {
        parts.take(n - 1) + seq![spec_join(parts.skip(n - 1), c)]
    }
}

pub proof fn lemma_split_len(s: Seq<char>, c: char)
    ensures
        spec_split(s, c).len() >= 1,
    decreases s.len(),
{
    if s.len() > 0 {
        lemma_split_len(s.drop_last(), c);
    }
}

/// A sequence without the separator is a single piece.
pub proof fn lemma_split_no_sep(s: Seq<char>, c: char)
    requires
        no_char(s, c),
    ensures
        spec_split(s, c) == seq![s],
    decreases s.len(),
{
    if s.len() == 0 {
        assert(spec_split(s, c) =~~= seq![s]);
    } else {
        assert(no_char(s.drop_last(), c));
        lemma_split_no_sep(s.drop_last(), c);
        assert(s.drop_last().push(s.last()) =~= s);
        assert(spec_split(s, c) =~~= seq![s]);
    }
}

/// Joining the pieces of a split gives back the original sequence.
pub proof fn lemma_join_split(s: Seq<char>, c: char)
    ensures
        spec_join(spec_split(s, c), c) == s,
    decreases s.len(),
{
    lemma_split_len(s, c);
    if s.len() == 0 {
        assert(spec_join(spec_split(s, c), c) =~= s);
    } else {
        lemma_join_split(s.drop_last(), c);
        lemma_split_len(s.drop_last(), c);
        let init = spec_split(s.drop_last(), c);
        if s.last() == c {
            let parts = init.push(Seq::<char>::empty());
            assert(parts.drop_last() =~~= init);
            assert(spec_join(parts, c) =~= s);
        } else {
            let parts = init.update(init.len() - 1, init.last().push(s.last()));
            if init.len() == 1 {
                assert(spec_join(parts, c) == parts[0]);
                assert(spec_join(init, c) == init[0]);
                assert(parts[0] =~= s);
            } else {
                assert(parts.drop_last() =~~= init.drop_last());
                assert(spec_join(parts, c) == spec_join(init.drop_last(), c) + seq![c]
                    + init.last().push(s.last()));
                assert(spec_join(init, c) == spec_join(init.drop_last(), c) + seq![c]
                    + init.last());
                assert(spec_join(parts, c) =~= spec_join(init, c).push(s.last()));
                assert(spec_join(init, c).push(s.last()) =~= s);
            }
        }
    }
}

/// A separator between two texts cuts exactly there: the split of the whole
/// is the split of the left part followed by the split of the right part.
pub proof fn lemma_split_around_sep(u: Seq<char>, c: char, v: Seq<char>)
    ensures
        spec_split(u + seq![c] + v, c) == spec_split(u, c) + spec_split(v, c),
    decreases v.len(),
{
    lemma_split_len(u, c);
    lemma_split_len(v, c);
    if v.len() == 0 {
        let w = u + seq![c] + v;
        assert(w.len() == u.len() + 1);
        assert(w.last() == c);
        assert(w.drop_last() =~= u);
        assert(spec_split(v, c) =~~= seq![v]);
        assert(spec_split(w, c) == spec_split(u, c).push(Seq::<char>::empty()));
        assert(spec_split(u, c).push(Seq::<char>::empty()) =~~= spec_split(u, c) + spec_split(
            v,
            c,
        ));
    } else {
        lemma_split_around_sep(u, c, v.drop_last());
        lemma_split_len(v.drop_last(), c);
        let w = u + seq![c] + v;
        let w0 = u + seq![c] + v.drop_last();
        assert(w.drop_last() =~= w0);
        assert(w.last() == v.last());
        let su = spec_split(u, c);
        let s0 = spec_split(v.drop_last(), c);
        if v.last() == c {
            assert(spec_split(w, c) == (su + s0).push(Seq::<char>::empty()));
            assert(spec_split(v, c) == s0.push(Seq::<char>::empty()));
            assert((su + s0).push(Seq::<char>::empty()) =~~= su + s0.push(Seq::<char>::empty()));
        } else {
            let m = (su + s0).len() - 1;
            assert(spec_split(w, c) == (su + s0).update(m, (su + s0).last().push(v.last())));
            assert(spec_split(v, c) == s0.update(s0.len() - 1, s0.last().push(v.last())));
            assert((su + s0).last() == s0.last());
            assert((su + s0).update(m, s0.last().push(v.last())) =~~= su + s0.update(
                s0.len() - 1,
                s0.last().push(v.last()),
            ));
        }
    }
}

/// Splitting undoes joining, as long as the pieces are free of the separator.
pub proof fn lemma_split_join(parts: Seq<Seq<char>>, c: char)
    requires
        parts.len() >= 1,
        forall|i: int| 0 <= i < parts.len() ==> no_char(#[trigger] parts[i], c),
    ensures
        spec_split(spec_join(parts, c), c) == parts,
    decreases parts.len(),
{
    if parts.len() == 1 {
        lemma_split_no_sep(parts[0], c);
        assert(seq![parts[0]] =~~= parts);
    } else {
        lemma_split_join(parts.drop_last(), c);
        lemma_split_around_sep(spec_join(parts.drop_last(), c), c, parts.last());
        lemma_split_no_sep(parts.last(), c);
        assert(spec_join(parts, c) == spec_join(parts.drop_last(), c) + seq![c] + parts.last());
        assert(parts.drop_last() + seq![parts.last()] =~~= parts);
    }
}

/// Bounded splitting undoes joining even when the last piece holds the
/// separator, as long as the pieces before it do not.
pub proof fn lemma_splitn_join(parts: Seq<Seq<char>>, c: char, n: nat)
    requires
        parts.len() == n,
        n >= 1,
        forall|i: int| 0 <= i < n - 1 ==> no_char(#[trigger] parts[i], c),
    ensures
        spec_splitn(spec_join(parts, c), c, n) == parts,
{
    let s = spec_join(parts, c);
    if n == 1 {
        lemma_split_len(s, c);
        lemma_join_split(s, c);
        let sp = spec_split(s, c);
        if sp.len() <= 1 {
            assert(spec_join(sp, c) == sp[0]);
            assert(spec_splitn(s, c, n) =~~= parts);
        } else {
            assert(sp.take(0int) =~~= Seq::<Seq<char>>::empty());
            assert(sp.skip(0int) =~~= sp);
            assert(spec_splitn(s, c, n) == sp.take(0int) + seq![spec_join(sp, c)]);
            assert(spec_splitn(s, c, n) =~~= seq![parts[0]]);
            assert(seq![parts[0]] =~~= parts);
        }
    } else {
        let head = parts.drop_last();
        let last = parts.last();
        assert(s == spec_join(head, c) + seq![c] + last);
        lemma_split_join(head, c);
        lemma_split_around_sep(spec_join(head, c), c, last);
        lemma_split_len(last, c);
        let sl = spec_split(last, c);
        let sp = spec_split(s, c);
        assert(sp == head + sl);
        if sl.len() == 1 {
            lemma_join_split(last, c);
            assert(spec_join(sl, c) == sl[0]);
            assert(sl =~~= seq![last]);
            assert(sp.len() == n);
            assert(head + seq![last] =~~= parts);
        } else {
            assert(sp.len() > n);
            assert(sp.take(n - 1) =~~= head);
            assert(sp.skip(n - 1) =~~= sl);
            lemma_join_split(last, c);
            assert(spec_splitn(s, c, n) == head + seq![last]);
            assert(head + seq![last] =~~= parts);
        }
    }
}

/// Joining two piece lists one after the other inserts one separator where
/// they meet.
pub proof fn lemma_join_concat(a: Seq<Seq<char>>, b: Seq<Seq<char>>, c: char)
    requires
        a.len() >= 1,
        b.len() >= 1,
    ensures
        spec_join(a + b, c) == spec_join(a, c) + seq![c] + spec_join(b, c),
    decreases b.len(),
{
    if b.len() == 1 {
        assert((a + b).drop_last() =~~= a);
        assert((a + b).last() == b[0]);
        assert(spec_join(b, c) == b[0]);
        assert((a + b).len() == a.len() + 1 >= 2);
    } else {
        lemma_join_concat(a, b.drop_last(), c);
        assert((a + b).drop_last() =~~= a + b.drop_last());
        assert((a + b).last() == b.last());
        assert(spec_join(a + b, c) == spec_join(a + b.drop_last(), c) + seq![c] + b.last());
        assert(spec_join(a, c) + seq![c] + spec_join(b, c) =~= spec_join(a, c) + seq![c]
            + (spec_join(b.drop_last(), c) + seq![c] + b.last()));
        assert(spec_join(a + b, c) =~= spec_join(a, c) + seq![c] + spec_join(b, c));
    }
}

// ---------- executable mirrors ----------

/// A copy of an optional string, equal to the original.
pub fn clone_opt(o: &Option<String>) -> (r: Option<String>)
    ensures
        r == *o,
{
    match o {
        Some(s) => Some(s.clone()),
        None => None,
    }
}

/// Whether `p` is an initial segment of `s`.
pub fn starts_with_str(s: &str, p: &str) -> (r: bool)
    ensures
        r == p@.is_prefix_of(s@),
{
    let n = s.unicode_len();
    let m = p.unicode_len();
    if m > n {
        return false;
    }
    let mut i: usize = 0;
    while i < m
        invariant
            0 <= i <= m,
            m <= n,
            m == p@.len(),
            n == s@.len(),
            forall|k: int| 0 <= k < i ==> s@[k] == p@[k],
        decreases m - i,
    {
        if s.get_char(i) != p.get_char(i) {
            assert(s@.subrange(0, m as int)[i as int] != p@[i as int]);
            return false;
        }
        i += 1;
    }
    assert(s@.subrange(0, m as int) =~= p@);
    true
}

/// The text that follows the prefix `p` in `s`.
pub fn after_prefix(s: &str, p: &str) -> (r: String)
    requires
        p@.is_prefix_of(s@),
    ensures
        r@ == s@.skip(p@.len() as int),
{
    let n = s.unicode_len();
    let m = p.unicode_len();
    let rest = s.substring_char(m, n);
    assert(rest@ =~= s@.skip(m as int));
    String::from_str(rest)
}

/// Whether two string slices hold the same characters.
pub fn str_eq(a: &str, b: &str) -> (r: bool)
    ensures
        r == (a@ == b@),
{
    let sa = String::from_str(a);
    let sb = String::from_str(b);
    sa == sb
}

/// The pieces of `s` between occurrences of `c`, each as a fresh `String`.
pub fn split_char(s: &str, c: char) -> (r: Vec<String>)
    ensures
        r.deep_view() == spec_split(s@, c),
{
    let n = s.unicode_len();
    let mut parts: Vec<String> = Vec::new();
    let mut start: usize = 0;
    let mut i: usize = 0;
    proof {
        assert(spec_split(s@.take(0int), c) =~~= parts.deep_view().push(
            s@.subrange(0int, 0int),
        ));
    }
    while i < n
        invariant
            0 <= start <= i <= n,
            n == s@.len(),
            spec_split(s@.take(i as int), c) == parts.deep_view().push(
                s@.subrange(start as int, i as int),
            ),
        decreases n - i,
    {
        let ghost pre = s@.take(i as int);
        let ghost cur = s@.subrange(start as int, i as int);
        assert(s@.take(i + 1).drop_last() =~= pre);
        assert(s@.take(i + 1).last() == s@[i as int]);
        if s.get_char(i) == c {
            let piece = s.substring_char(start, i);
            parts.push(String::from_str(piece));
            proof {
                assert(spec_split(s@.take(i + 1), c) == spec_split(pre, c).push(
                    Seq::<char>::empty(),
                ));
                assert(spec_split(s@.take(i + 1), c) =~~= parts.deep_view().push(
                    s@.subrange(i + 1, i + 1),
                ));
            }
            start = i + 1;
        } else {
            proof {
                let init = spec_split(pre, c);
                lemma_split_len(pre, c);
                assert(init.last() == cur);
                assert(spec_split(s@.take(i + 1), c) == init.update(
                    init.len() - 1,
                    cur.push(s@[i as int]),
                ));
                assert(cur.push(s@[i as int]) =~= s@.subrange(start as int, i + 1));
                assert(init.update(init.len() - 1, s@.subrange(start as int, i + 1))
                    =~~= parts.deep_view().push(s@.subrange(start as int, i + 1)));
            }
        }
        i += 1;
    }
    let piece = s.substring_char(start, n);
    parts.push(String::from_str(piece));
    proof {
        assert(s@.take(n as int) =~= s@);
        assert(parts.deep_view() =~~= spec_split(s@, c));
    }
    parts
}

/// The pieces of `parts`, from index `from` on, joined with the one-character
/// separator `sep`.
pub fn join_from(parts: &Vec<String>, from: usize, sep: &str) -> (r: String)
    requires
        sep@.len() == 1,
        from < parts.len(),
    ensures
        r@ == spec_join(parts.deep_view().skip(from as int), sep@[0]),
{
    let ghost c = sep@[0];
    let mut out = parts[from].clone();
    let mut i: usize = from + 1;
    assert(out@ == parts.deep_view().skip(from as int)[0]);
    while i < parts.len()
        invariant
            from < i <= parts.len(),
            sep@.len() == 1,
            c == sep@[0],
            out@ == spec_join(parts.deep_view().skip(from as int).take(i - from), c),
        decreases parts.len() - i,
    {
        let ghost done = parts.deep_view().skip(from as int).take(i - from);
        out.append(sep);
        out.append(parts[i].as_str());
        proof {
            let next = parts.deep_view().skip(from as int).take(i + 1 - from);
            assert(next.drop_last() =~~= done);
            assert(next.last() == parts.deep_view()[i as int]);
            assert(next.len() >= 2);
            assert(spec_join(next, c) == spec_join(done, c) + seq![c] + parts.deep_view()[
                i as int]);
            assert(sep@ =~= seq![c]);
            assert(out@ =~= spec_join(next, c));
        }
        i += 1;
    }
    proof {
        assert(parts.deep_view().skip(from as int).take(parts.len() - from) =~~= parts.deep_view()
            .skip(from as int));
    }
    out
}

/// The pieces of `s` between occurrences of the one-character separator
/// `sep`, stopping after `n - 1` cuts: the remainder stays in the last piece.
pub fn splitn_str(s: &str, sep: &str, n: usize) -> (r: Vec<String>)
    requires
        n >= 1,
        sep@.len() == 1,
    ensures
        r.deep_view() == spec_splitn(s@, sep@[0], n as nat),
{
    let c = sep.get_char(0);
    let mut parts = split_char(s, c);
    if parts.len() <= n {
        parts
    } else {
        let mut head: Vec<String> = Vec::new();
        let mut i: usize = 0;
        while i < n - 1
            invariant
                0 <= i <= n - 1,
                n <= parts.len(),
                parts.deep_view() == spec_split(s@, c),
                head.deep_view() =~~= parts.deep_view().take(i as int),
            decreases n - 1 - i,
        {
            let ghost old_head = head.deep_view();
            let piece = parts[i].clone();
            assert(piece@ == parts.deep_view()[i as int]);
            head.push(piece);
            proof {
                assert(head.deep_view() =~~= old_head.push(parts.deep_view()[i as int]));
                assert(head.deep_view() =~~= parts.deep_view().take(i + 1));
            }
            i += 1;
        }
        let tail = join_from(&parts, n - 1, sep);
        head.push(tail);
        proof {
            assert(head.deep_view() =~~= spec_split(s@, c).take(n - 1) + seq![spec_join(
                spec_split(s@, c).skip(n - 1),
                c,
            )]);
        }
        head
    }
}

} // verus!
