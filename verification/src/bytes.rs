//! Byte-string helpers: splitting on a separator, comparison, appending and
//! pattern replacement, each with its mathematical definition.

use vstd::prelude::*;

verus! {

/// The pieces of `s` between occurrences of `sep`, as `str::split` yields
/// them: one more piece than there are separators, empty pieces included.
pub open spec fn split_on(s: Seq<u8>, sep: u8) -> Seq<Seq<u8>>
    decreases s.len(),
{
    if s.len() == 0 {
        seq![Seq::<u8>::empty()]
    } else {
        let prev = split_on(s.drop_last(), sep);
        if s.last() == sep {
            prev.push(Seq::<u8>::empty())
        } else {
            prev.update(prev.len() - 1, prev.last().push(s.last()))
        }
    }
}

/// `split_on` always yields at least one piece.
pub proof fn lemma_split_on_nonempty(s: Seq<u8>, sep: u8)
    ensures
        split_on(s, sep).len() >= 1,
    decreases s.len(),
{
    if s.len() > 0 {
        lemma_split_on_nonempty(s.drop_last(), sep);
    }
}

/// Splitting a concatenation at a separator between its two parts gives the
/// pieces of each part, one after the other.
pub proof fn lemma_split_on_concat(a: Seq<u8>, sep: u8, b: Seq<u8>)
    ensures
        split_on(a + seq![sep] + b, sep) == split_on(a, sep) + split_on(b, sep),
    decreases b.len(),
{
    let s = a + seq![sep] + b;
    if b.len() == 0 {
        assert(s.drop_last() =~= a);
        assert(split_on(a, sep) + split_on(b, sep) =~= split_on(a, sep).push(Seq::<u8>::empty()));
    } else {
        assert(s.drop_last() =~= a + seq![sep] + b.drop_last());
        lemma_split_on_concat(a, sep, b.drop_last());
        lemma_split_on_nonempty(b.drop_last(), sep);
        let pa = split_on(a, sep);
        let pb = split_on(b.drop_last(), sep);
        if b.last() == sep {
            assert((pa + pb).push(Seq::<u8>::empty()) =~= pa + pb.push(Seq::<u8>::empty()));
        } else {
            assert((pa + pb).update((pa + pb).len() - 1, (pa + pb).last().push(b.last()))
                =~= pa + pb.update(pb.len() - 1, pb.last().push(b.last())));
        }
    }
}

/// A byte string without the separator is a single piece.
pub proof fn lemma_split_on_single(a: Seq<u8>, sep: u8)
    requires
        forall|i: int| 0 <= i < a.len() ==> a[i] != sep,
    ensures
        split_on(a, sep) == seq![a],
    decreases a.len(),
{
    if a.len() > 0 {
        lemma_split_on_single(a.drop_last(), sep);
        assert(a.drop_last().push(a.last()) =~= a);
        assert(seq![a.drop_last()].update(0, a.drop_last().push(a.last())) =~= seq![a]);
    } else {
        assert(a =~= Seq::<u8>::empty());
    }
}

/// Views of a vector of byte vectors.
pub open spec fn views(v: Seq<Vec<u8>>) -> Seq<Seq<u8>> {
    v.map_values(|x: Vec<u8>| x@)
}

/// Splits `s` at every `sep`; the pieces are those of `split_on`.
pub fn split_bytes(s: &[u8], sep: u8) -> (pieces: Vec<Vec<u8>>)
    ensures
        views(pieces@) == split_on(s@, sep),
{
    let mut done: Vec<Vec<u8>> = Vec::new();
    let mut cur: Vec<u8> = Vec::new();
    let mut i: usize = 0;
    assert(s@.take(0) =~= Seq::<u8>::empty());
    while i < s.len()
        invariant
            i <= s.len(),
            views(done@).push(cur@) == split_on(s@.take(i as int), sep),
        decreases s.len() - i,
    {
        let b = s[i];
        assert(s@.take(i + 1).drop_last() =~= s@.take(i as int));
        assert(s@.take(i + 1).last() == b);
        proof {
            lemma_split_on_nonempty(s@.take(i as int), sep);
        }
        if b == sep {
            let ghost old_done = done@;
            let piece = cur;
            done.push(piece);
            cur = Vec::new();
            assert(views(done@) =~= views(old_done).push(piece@));
            assert(views(done@).push(cur@) =~= views(old_done).push(piece@).push(Seq::<u8>::empty()));
        } else {
            let ghost old_cur = cur@;
            cur.push(b);
            assert(views(done@).push(cur@) =~= views(done@).push(old_cur).update(
                views(done@).len() as int,
                old_cur.push(b),
            ));
        }
        i = i + 1;
    }
    assert(s@.take(s.len() as int) =~= s@);
    let ghost old_done = done@;
    done.push(cur);
    assert(views(done@) =~= views(old_done).push(cur@));
    done
}


/// Whether `pat` occurs in `s` at position `i`.
pub open spec fn matches_at(s: Seq<u8>, pat: Seq<u8>, i: int) -> bool {
    0 <= i && i + pat.len() <= s.len() && s.subrange(i, i + pat.len()) == pat
}

/// `s` with every occurrence of `pat` replaced by `rep`, occurrences taken
/// from the left and not overlapping, as `str::replace` does for a pattern
/// that is not empty.
pub open spec fn replace_all(s: Seq<u8>, pat: Seq<u8>, rep: Seq<u8>) -> Seq<u8>
    decreases s.len(),
{
    if pat.len() == 0 || s.len() == 0 {
        s
    } else if matches_at(s, pat, 0) {
        rep + replace_all(s.skip(pat.len() as int), pat, rep)
    } else {
        seq![s[0]] + replace_all(s.skip(1), pat, rep)
    }
}

/// A text in which the pattern never occurs is left as it is.
pub proof fn lemma_replace_without_match(s: Seq<u8>, pat: Seq<u8>, rep: Seq<u8>)
    requires
        forall|i: int| 0 <= i < s.len() ==> !#[trigger] matches_at(s, pat, i),
    ensures
        replace_all(s, pat, rep) == s,
    decreases s.len(),
{
    if pat.len() > 0 && s.len() > 0 {
        let t = s.skip(1);
        assert forall|i: int| 0 <= i < t.len() implies !#[trigger] matches_at(t, pat, i) by {
            assert(!matches_at(s, pat, i + 1));
            if i + pat.len() <= t.len() {
                assert(t.subrange(i, i + pat.len()) =~= s.subrange(i + 1, i + 1 + pat.len()));
            }
        }
        assert(!matches_at(s, pat, 0));
        lemma_replace_without_match(t, pat, rep);
        assert(seq![s[0]] + t =~= s);
    }
}

/// A text that is the pattern alone becomes the replacement.
pub proof fn lemma_replace_whole_pattern(pat: Seq<u8>, rep: Seq<u8>)
    requires
        pat.len() > 0,
    ensures
        replace_all(pat, pat, rep) == rep,
{
    assert(pat.subrange(0, pat.len() as int) =~= pat);
    assert(matches_at(pat, pat, 0));
    assert(pat.skip(pat.len() as int) =~= Seq::<u8>::empty());
    assert(replace_all(Seq::<u8>::empty(), pat, rep) == Seq::<u8>::empty());
    assert(rep + Seq::<u8>::empty() =~= rep);
}

/// Whether `s[start..]` begins with `pat`.
pub fn starts_with_at(s: &[u8], start: usize, pat: &[u8]) -> (r: bool)
    requires
        start <= s.len(),
    ensures
        r == matches_at(s@, pat@, start as int),
{
    if pat.len() > s.len() - start {
        return false;
    }
    let mut j: usize = 0;
    while j < pat.len()
        invariant
            j <= pat.len(),
            start + pat.len() <= s.len(),
            forall|k: int| 0 <= k < j ==> s@[start + k] == pat@[k],
        decreases pat.len() - j,
    {
        if s[start + j] != pat[j] {
            assert(s@.subrange(start as int, start + pat.len())[j as int] != pat@[j as int]);
            return false;
        }
        j = j + 1;
    }
    assert(s@.subrange(start as int, start + pat.len()) =~= pat@);
    true
}

/// Whether two byte strings are equal.
pub fn bytes_equal(a: &[u8], b: &[u8]) -> (r: bool)
    ensures
        r == (a@ == b@),
{
    if a.len() != b.len() {
        return false;
    }
    let r = starts_with_at(a, 0, b);
    assert(a@.subrange(0, b@.len() as int) =~= a@);
    r
}

/// Appends `src` to `out`.
pub fn append_bytes(out: &mut Vec<u8>, src: &[u8])
    ensures
        final(out)@ == old(out)@ + src@,
{
    let ghost start = out@;
    let mut i: usize = 0;
    while i < src.len()
        invariant
            i <= src.len(),
            out@ == start + src@.take(i as int),
        decreases src.len() - i,
    {
        out.push(src[i]);
        assert(src@.take(i + 1) =~= src@.take(i as int).push(src@[i as int]));
        i = i + 1;
    }
    assert(src@.take(src.len() as int) =~= src@);
}

/// Replaces every occurrence of `pat` in `s` by `rep` (an empty `pat`
/// leaves `s` as it is).
pub fn replace_bytes(s: &[u8], pat: &[u8], rep: &[u8]) -> (r: Vec<u8>)
    ensures
        r@ == replace_all(s@, pat@, rep@),
{
    let mut out: Vec<u8> = Vec::new();
    if pat.len() == 0 {
        append_bytes(&mut out, s);
        assert(out@ =~= s@);
        return out;
    }
    let mut i: usize = 0;
    assert(s@.skip(0) =~= s@);
    while i < s.len()
        invariant
            i <= s.len(),
            pat@.len() > 0,
            out@ + replace_all(s@.skip(i as int), pat@, rep@) == replace_all(s@, pat@, rep@),
        decreases s.len() - i,
    {
        let ghost rest = s@.skip(i as int);
        let found = starts_with_at(s, i, pat);
        let ghost before = out@;
        if found {
            proof {
                assert(rest.subrange(0, pat@.len() as int) =~= s@.subrange(i as int, i + pat@.len()));
                assert(rest.skip(pat@.len() as int) =~= s@.skip(i + pat@.len()));
            }
            append_bytes(&mut out, rep);
            assert(out@ + replace_all(s@.skip(i + pat@.len()), pat@, rep@) =~= before + replace_all(rest, pat@, rep@));
            i = i + pat.len();
        } else {
            proof {
                if pat@.len() <= rest.len() {
                    assert(rest.subrange(0, pat@.len() as int) =~= s@.subrange(i as int, i + pat@.len()));
                }
                assert(rest.skip(1) =~= s@.skip(i + 1));
            }
            out.push(s[i]);
            assert(out@ + replace_all(s@.skip(i + 1), pat@, rep@) =~= before + replace_all(rest, pat@, rep@));
            i = i + 1;
        }
    }
    assert(s@.skip(s.len() as int) =~= Seq::<u8>::empty());
    assert(out@ + Seq::<u8>::empty() =~= out@);
    out
}

} // verus!
