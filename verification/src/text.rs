//! Character-sequence helpers shared by the capabilities: splitting on a
//! separator, joining pieces, and the few standard-library calls that the
//! library makes on characters and strings.

use vstd::prelude::*;
use vstd::string::*;

verus! {

/// The fields of `s` separated by `sep`, as `str::split` with a `char`
/// pattern yields them: there is always at least one field, and `n`
/// separators give `n + 1` fields.
pub open spec fn split_seq(s: Seq<char>, sep: char) -> Seq<Seq<char>>
    decreases s.len(),
{
    if s.len() == 0 {
        seq![Seq::<char>::empty()]
    } else {
        let rest = split_seq(s.drop_last(), sep);
        if s.last() == sep {
            rest.push(Seq::<char>::empty())
        } else {
            rest.update(rest.len() - 1, rest.last().push(s.last()))
        }
    }
}

/// The concatenation of all pieces, in order.
pub open spec fn flatten(ss: Seq<Seq<char>>) -> Seq<char>
    decreases ss.len(),
{
    if ss.len() == 0 {
        Seq::<char>::empty()
    } else {
        flatten(ss.drop_last()) + ss.last()
    }
}

/// `split_seq` never yields an empty list of fields.
pub proof fn lemma_split_nonempty(s: Seq<char>, sep: char)
    ensures
        split_seq(s, sep).len() >= 1,
    decreases s.len(),
{
    if s.len() > 0 {
        lemma_split_nonempty(s.drop_last(), sep);
    }
}

/// A sequence without the separator is a single field.
pub proof fn lemma_split_free(a: Seq<char>, sep: char)
    requires
        forall|i: int| 0 <= i < a.len() ==> a[i] != sep,
    ensures
        split_seq(a, sep) == seq![a],
    decreases a.len(),
{
    if a.len() > 0 {
        lemma_split_free(a.drop_last(), sep);
        assert(a.drop_last().push(a.last()) =~= a);
        assert(split_seq(a, sep) =~= seq![a]);
    } else {
        assert(a =~= Seq::<char>::empty());
    }
}

/// Splitting two sequences joined by the separator gives the fields of the
/// first followed by the fields of the second.
pub proof fn lemma_split_concat(a: Seq<char>, b: Seq<char>, sep: char)
    ensures
        split_seq(a + seq![sep] + b, sep) == split_seq(a, sep) + split_seq(b, sep),
    decreases b.len(),
{
    let s = a + seq![sep] + b;
    if b.len() == 0 {
        assert(s.drop_last() =~= a);
        assert(b =~= Seq::<char>::empty());
        assert(split_seq(a, sep) + split_seq(b, sep) =~= split_seq(a, sep).push(
            Seq::<char>::empty(),
        ));
    } else {
        let b1 = b.drop_last();
        assert(s.drop_last() =~= a + seq![sep] + b1);
        assert(s.last() == b.last());
        lemma_split_concat(a, b1, sep);
        lemma_split_nonempty(b1, sep);
        let fa = split_seq(a, sep);
        let fb1 = split_seq(b1, sep);
        if b.last() == sep {
            assert(split_seq(s, sep) =~= (fa + fb1).push(Seq::<char>::empty()));
            assert((fa + fb1).push(Seq::<char>::empty()) =~= fa + fb1.push(Seq::<char>::empty()));
        } else {
            let rest = fa + fb1;
            assert(rest.last() == fb1.last());
            assert(rest.update(rest.len() - 1, rest.last().push(b.last())) =~= fa + fb1.update(
                fb1.len() - 1,
                fb1.last().push(b.last()),
            ));
        }
    }
}

/// The fields `ss` joined with `sep` between neighbours.
pub open spec fn join_fields(ss: Seq<Seq<char>>, sep: char) -> Seq<char>
    decreases ss.len(),
{
    if ss.len() == 0 {
        Seq::<char>::empty()
    } else if ss.len() == 1 {
        ss[0]
    } else {
        join_fields(ss.drop_last(), sep) + seq![sep] + ss.last()
    }
}

/// Joining the fields of a split with the separator gives the text back.
pub proof fn lemma_split_join(s: Seq<char>, sep: char)
    ensures
        join_fields(split_seq(s, sep), sep) == s,
    decreases s.len(),
{
    if s.len() == 0 {
        assert(split_seq(s, sep) =~= seq![Seq::<char>::empty()]);
        assert(s =~= Seq::<char>::empty());
    } else {
        let d = s.drop_last();
        lemma_split_join(d, sep);
        lemma_split_nonempty(d, sep);
        let rest = split_seq(d, sep);
        assert(d.push(s.last()) =~= s);
        if s.last() == sep {
            let fs = rest.push(Seq::<char>::empty());
            assert(fs.drop_last() =~= rest);
            assert(join_fields(fs, sep) =~= d + seq![sep] + Seq::<char>::empty());
        } else {
            let fs = rest.update(rest.len() - 1, rest.last().push(s.last()));
            if rest.len() == 1 {
                assert(join_fields(fs, sep) == fs[0]);
                assert(fs[0] =~= d.push(s.last()));
            } else {
                assert(fs.drop_last() =~= rest.drop_last());
                assert(join_fields(fs, sep) =~= join_fields(rest, sep).push(s.last()));
            }
        }
    }
}

/// Whether two texts are equal.
pub fn str_eq(a: &str, b: &str) -> (r: bool)
    ensures
        r == (a@ == b@),
{
    String::from_str(a) == String::from_str(b)
}

/// The characters of `s`, in order.
pub fn chars_of(s: &str) -> (r: Vec<char>)
    ensures
        r@ == s@,
{
    let n = s.unicode_len();
    let mut r: Vec<char> = Vec::new();
    let mut i: usize = 0;
    while i < n
        invariant
            n == s@.len(),
            i <= n,
            r@ == s@.take(i as int),
        decreases n - i,
    {
        let c = s.get_char(i);
        r.push(c);
        i = i + 1;
        assert(r@ =~= s@.take(i as int));
    }
    assert(r@ =~= s@);
    r
}

/// Appends one character to a `String` (`String::push`).
#[verifier::external_body]
pub(crate) fn push_char(s: &mut String, c: char)
    ensures
        final(s)@ == old(s)@.push(c),
{
    s.push(c);
}

/// A `String` holding exactly the characters of `v`.
pub fn string_from_chars(v: &Vec<char>) -> (r: String)
    ensures
        r@ == v@,
{
    let mut r = String::new();
    let mut i: usize = 0;
    while i < v.len()
        invariant
            i <= v.len(),
            r@ == v@.take(i as int),
        decreases v.len() - i,
    {
        push_char(&mut r, v[i]);
        i = i + 1;
        assert(r@ =~= v@.take(i as int));
    }
    assert(r@ =~= v@);
    r
}

/// Splits `s` on every occurrence of `sep`.
pub fn split_chars(s: &Vec<char>, sep: char) -> (r: Vec<Vec<char>>)
    ensures
        r.deep_view() == split_seq(s@, sep),
{
    let mut done: Vec<Vec<char>> = Vec::new();
    let mut cur: Vec<char> = Vec::new();
    let mut i: usize = 0;
    while i < s.len()
        invariant
            i <= s.len(),
            done.deep_view().push(cur@) == split_seq(s@.take(i as int), sep),
        decreases s.len() - i,
    {
        let ghost before = split_seq(s@.take(i as int), sep);
        assert(s@.take(i + 1).drop_last() =~= s@.take(i as int));
        let c = s[i];
        if c == sep {
            let ghost old_done = done.deep_view();
            assert(cur.deep_view() =~= cur@);
            done.push(cur);
            assert(done.deep_view() =~= old_done.push(before.last()));
            cur = Vec::new();
            assert(done.deep_view().push(cur@) =~= before.push(Seq::<char>::empty()));
        } else {
            cur.push(c);
            assert(done.deep_view().push(cur@) =~= before.update(
                before.len() - 1,
                before.last().push(c),
            ));
        }
        i = i + 1;
    }
    assert(s@.take(s.len() as int) =~= s@);
    let ghost old_done = done.deep_view();
    assert(cur.deep_view() =~= cur@);
    done.push(cur);
    assert(done.deep_view() =~= old_done.push(cur@));
    done
}

fn prefix_at(s: &Vec<char>, i: usize, pat: &Vec<char>) -> (r: bool)
    requires
        i <= s.len(),
    ensures
        r == (i + pat.len() <= s.len() && s@.subrange(i as int, i + pat.len()) == pat@),
{
    if pat.len() > s.len() - i {
        return false;
    }
    let mut j: usize = 0;
    while j < pat.len()
        invariant
            i + pat.len() <= s.len(),
            j <= pat.len(),
            forall|k: int| 0 <= k < j ==> s@[i + k] == pat@[k],
        decreases pat.len() - j,
    {
        if s[i + j] != pat[j] {
            assert(s@.subrange(i as int, i + pat.len())[j as int] != pat@[j as int]);
            return false;
        }
        j = j + 1;
    }
    assert(s@.subrange(i as int, i + pat.len()) =~= pat@);
    true
}

/// `s` with every occurrence of the non-empty pattern `pat` replaced by
/// `rep`, occurrences taken from the left without overlapping, as
/// `str::replace` does.
pub open spec fn replace_all(s: Seq<char>, pat: Seq<char>, rep: Seq<char>) -> Seq<char>
    decreases s.len(),
{
    if pat.len() == 0 || s.len() < pat.len() {
        s
    } else if s.take(pat.len() as int) == pat {
        rep + replace_all(s.skip(pat.len() as int), pat, rep)
    } else {
        seq![s[0]] + replace_all(s.skip(1), pat, rep)
    }
}

/// The pieces `ps` with `sep` between neighbours.
pub open spec fn interleave(ps: Seq<Seq<char>>, sep: Seq<char>) -> Seq<char>
    decreases ps.len(),
{
    if ps.len() == 0 {
        Seq::<char>::empty()
    } else if ps.len() == 1 {
        ps[0]
    } else {
        ps[0] + sep + interleave(ps.drop_first(), sep)
    }
}

/// Whether the character `c` occurs nowhere in `s`.
pub open spec fn lacks(s: Seq<char>, c: char) -> bool {
    forall|i: int| 0 <= i < s.len() ==> s[i] != c
}

/// A text that does not hold the first character of the pattern is left
/// as it is.
pub proof fn lemma_replace_untouched(s: Seq<char>, pat: Seq<char>, rep: Seq<char>)
    requires
        pat.len() > 0,
        lacks(s, pat[0]),
    ensures
        replace_all(s, pat, rep) == s,
    decreases s.len(),
{
    if s.len() >= pat.len() {
        assert(s.take(pat.len() as int)[0] == s[0]);
        let t = s.skip(1);
        assert forall|i: int| 0 <= i < t.len() implies t[i] != pat[0] by {
            assert(t[i] == s[i + 1]);
        }
        lemma_replace_untouched(t, pat, rep);
        assert(seq![s[0]] + t =~= s);
    }
}

/// A leading text that does not hold the first character of the pattern is
/// kept, and the rest is replaced.
pub proof fn lemma_replace_after_untouched(p: Seq<char>, x: Seq<char>, pat: Seq<char>, rep: Seq<char>)
    requires
        pat.len() > 0,
        lacks(p, pat[0]),
    ensures
        replace_all(p + x, pat, rep) == p + replace_all(x, pat, rep),
    decreases p.len(),
{
    if p.len() == 0 {
        assert(p + x =~= x);
        assert(p + replace_all(x, pat, rep) =~= replace_all(x, pat, rep));
    } else {
        let px = p + x;
        let q = p.skip(1);
        assert forall|i: int| 0 <= i < q.len() implies q[i] != pat[0] by {
            assert(q[i] == p[i + 1]);
        }
        lemma_replace_after_untouched(q, x, pat, rep);
        assert(px.skip(1) =~= q + x);
        if px.len() < pat.len() {
            assert(x.len() < pat.len());
            assert(p + x =~= p + replace_all(x, pat, rep));
        } else {
            assert(px.take(pat.len() as int)[0] == p[0]);
            assert(seq![p[0]] + (q + replace_all(x, pat, rep)) =~= p + replace_all(x, pat, rep));
        }
    }
}

/// An occurrence of the pattern at the front is replaced, and the rest
/// after it is replaced in turn.
pub proof fn lemma_replace_at_front(x: Seq<char>, pat: Seq<char>, rep: Seq<char>)
    requires
        pat.len() > 0,
    ensures
        replace_all(pat + x, pat, rep) == rep + replace_all(x, pat, rep),
{
    assert((pat + x).take(pat.len() as int) =~= pat);
    assert((pat + x).skip(pat.len() as int) =~= x);
}

/// Replacing a pattern in pieces joined by that pattern, where no piece
/// holds the pattern's first character, puts the replacement between the
/// pieces: every occurrence is replaced, and the pieces are kept.
pub proof fn lemma_replace_interleave(ps: Seq<Seq<char>>, pat: Seq<char>, rep: Seq<char>)
    requires
        pat.len() > 0,
        forall|k: int| 0 <= k < ps.len() ==> lacks(#[trigger] ps[k], pat[0]),
    ensures
        replace_all(interleave(ps, pat), pat, rep) == interleave(ps, rep),
    decreases ps.len(),
{
    if ps.len() == 0 {
    } else if ps.len() == 1 {
        assert(lacks(ps[0], pat[0]));
        lemma_replace_untouched(ps[0], pat, rep);
    } else {
        let rest = ps.drop_first();
        assert forall|k: int| 0 <= k < rest.len() implies lacks(#[trigger] rest[k], pat[0]) by {
            assert(rest[k] == ps[k + 1]);
        }
        lemma_replace_interleave(rest, pat, rep);
        assert(lacks(ps[0], pat[0]));
        lemma_replace_after_untouched(ps[0], pat + interleave(rest, pat), pat, rep);
        lemma_replace_at_front(interleave(rest, pat), pat, rep);
        assert(ps[0] + pat + interleave(rest, pat) =~= ps[0] + (pat + interleave(rest, pat)));
        assert(ps[0] + (rep + interleave(rest, rep)) =~= ps[0] + rep + interleave(rest, rep));
    }
}

/// A character that occurs in no piece and not in the separator does not
/// occur in the pieces joined by it.
pub proof fn lemma_interleave_lacks(ps: Seq<Seq<char>>, sep: Seq<char>, c: char)
    requires
        lacks(sep, c),
        forall|k: int| 0 <= k < ps.len() ==> lacks(#[trigger] ps[k], c),
    ensures
        lacks(interleave(ps, sep), c),
    decreases ps.len(),
{
    if ps.len() == 1 {
        assert(lacks(ps[0], c));
    } else if ps.len() > 1 {
        let rest = ps.drop_first();
        assert forall|k: int| 0 <= k < rest.len() implies lacks(#[trigger] rest[k], c) by {
            assert(rest[k] == ps[k + 1]);
        }
        lemma_interleave_lacks(rest, sep, c);
        assert(lacks(ps[0], c));
        let t = interleave(rest, sep);
        let all = ps[0] + sep + t;
        assert forall|i: int| 0 <= i < all.len() implies all[i] != c by {
            if i < ps[0].len() {
                assert(all[i] == ps[0][i]);
            } else if i < ps[0].len() + sep.len() {
                assert(all[i] == sep[i - ps[0].len()]);
            } else {
                assert(all[i] == t[i - ps[0].len() - sep.len()]);
            }
        }
    }
}

/// Appends the characters of `tail` to `out`.
pub fn append_chars(out: &mut Vec<char>, tail: &Vec<char>)
    ensures
        final(out)@ == old(out)@ + tail@,
{
    let mut i: usize = 0;
    while i < tail.len()
        invariant
            i <= tail.len(),
            out@ == old(out)@ + tail@.take(i as int),
        decreases tail.len() - i,
    {
        out.push(tail[i]);
        i = i + 1;
        assert(out@ =~= old(out)@ + tail@.take(i as int));
    }
    assert(tail@.take(tail.len() as int) =~= tail@);
}

/// Replaces every occurrence of the non-empty pattern `pat` in `s` by `rep`.
pub fn replace_all_chars(s: &Vec<char>, pat: &Vec<char>, rep: &Vec<char>) -> (r: Vec<char>)
    requires
        pat.len() > 0,
    ensures
        r@ == replace_all(s@, pat@, rep@),
{
    let mut out: Vec<char> = Vec::new();
    let mut i: usize = 0;
    assert(s@.skip(0) =~= s@);
    while i < s.len()
        invariant
            i <= s.len(),
            pat.len() > 0,
            out@ + replace_all(s@.skip(i as int), pat@, rep@) == replace_all(s@, pat@, rep@),
        decreases s.len() - i,
    {
        let ghost rest = s@.skip(i as int);
        let ghost before = out@;
        if prefix_at(s, i, pat) {
            assert(rest.take(pat.len() as int) =~= s@.subrange(i as int, i + pat.len()));
            assert(rest.skip(pat.len() as int) =~= s@.skip(i + pat.len()));
            append_chars(&mut out, rep);
            i = i + pat.len();
            assert(out@ + replace_all(s@.skip(i as int), pat@, rep@) =~= before + replace_all(rest, pat@, rep@));
        } else {
            proof {
                if rest.len() >= pat.len() {
                    assert(rest.take(pat.len() as int) =~= s@.subrange(i as int, i + pat.len()));
                }
            }
            assert(rest.skip(1) =~= s@.skip(i + 1));
            assert(rest[0] == s@[i as int]);
            out.push(s[i]);
            i = i + 1;
            proof {
                if rest.len() < pat.len() {
                    assert(rest =~= seq![rest[0]] + rest.skip(1));
                }
            }
            assert(out@ + replace_all(s@.skip(i as int), pat@, rep@) =~= before + replace_all(rest, pat@, rep@));
        }
    }
    assert(s@.skip(s.len() as int) =~= Seq::<char>::empty());
    assert(out@ + Seq::<char>::empty() =~= out@);
    out
}

/// `s` without the leading `pat`, where `s` starts with `pat`; else `s`.
pub open spec fn strip_prefix(s: Seq<char>, pat: Seq<char>) -> Seq<char> {
    if pat.len() <= s.len() && s.take(pat.len() as int) == pat {
        s.skip(pat.len() as int)
    } else {
        s
    }
}

/// Removes a leading occurrence of `pat` from `s`, as `str::strip_prefix`
/// does, keeping `s` as it is where it does not start with `pat`.
pub fn strip_prefix_chars(s: &Vec<char>, pat: &Vec<char>) -> (r: Vec<char>)
    ensures
        r@ == strip_prefix(s@, pat@),
{
    if !prefix_at(s, 0, pat) {
        proof {
            if pat.len() <= s.len() {
                assert(s@.subrange(0, pat.len() as int) =~= s@.take(pat.len() as int));
            }
        }
        let mut out: Vec<char> = Vec::new();
        let mut i: usize = 0;
        while i < s.len()
            invariant
                i <= s.len(),
                out@ == s@.take(i as int),
            decreases s.len() - i,
        {
            out.push(s[i]);
            i = i + 1;
            assert(out@ =~= s@.take(i as int));
        }
        assert(s@.take(s.len() as int) =~= s@);
        return out;
    }
    assert(s@.subrange(0, pat.len() as int) =~= s@.take(pat.len() as int));
    let mut out: Vec<char> = Vec::new();
    let mut i: usize = pat.len();
    while i < s.len()
        invariant
            pat.len() <= i <= s.len(),
            out@ == s@.subrange(pat.len() as int, i as int),
        decreases s.len() - i,
    {
        out.push(s[i]);
        i = i + 1;
        assert(out@ =~= s@.subrange(pat.len() as int, i as int));
    }
    assert(s@.subrange(pat.len() as int, s.len() as int) =~= s@.skip(pat.len() as int));
    out
}

} // verus!
