//! Joining texts with a separator and splitting them back.
use vstd::prelude::*;
use vstd::string::*;

verus! {

/// The pieces of `s` between occurrences of `sep`; never empty.
pub open spec fn pieces(s: Seq<char>, sep: char) -> Seq<Seq<char>>
    decreases s.len(),
{
    if s.len() == 0 {
        seq![Seq::<char>::empty()]
    } else {
        let p = pieces(s.drop_last(), sep);
        if s.last() == sep {
            p.push(Seq::<char>::empty())
        } else {
            p.update(p.len() - 1, p.last().push(s.last()))
        }
    }
}

/// The texts of `parts`, with `sep` between each two.
pub open spec fn joined(parts: Seq<Seq<char>>, sep: Seq<char>) -> Seq<char>
    decreases parts.len(),
{
    if parts.len() == 0 {
        Seq::<char>::empty()
    } else if parts.len() == 1 {
        parts[0]
    } else {
        joined(parts.drop_last(), sep) + sep + parts.last()
    }
}

/// The views of a sequence of strings.
pub open spec fn views(v: Seq<String>) -> Seq<Seq<char>> {
    v.map_values(|s: String| s@)
}

/// Whether `c` does not occur in `s`.
pub open spec fn free_of(s: Seq<char>, c: char) -> bool {
    forall|i: int| 0 <= i < s.len() ==> #[trigger] s[i] != c
}

pub proof fn lemma_pieces_len(s: Seq<char>, sep: char)
    ensures
        pieces(s, sep).len() >= 1,
    decreases s.len(),
{
    if s.len() > 0 {
        lemma_pieces_len(s.drop_last(), sep);
    }
}

/// Pieces found in a prefix stay, all but the last, in every longer prefix.
pub proof fn lemma_pieces_stable(s: Seq<char>, sep: char, i: int, m: int)
    requires
        0 <= i <= m <= s.len(),
    ensures
        pieces(s.subrange(0, m), sep).len() >= pieces(s.subrange(0, i), sep).len(),
        forall|j: int|
            0 <= j < pieces(s.subrange(0, i), sep).len() - 1 ==> #[trigger] pieces(
                s.subrange(0, m),
                sep,
            )[j] == pieces(s.subrange(0, i), sep)[j],
    decreases m - i,
{
    lemma_pieces_len(s.subrange(0, i), sep);
    if m > i {
        lemma_pieces_stable(s, sep, i, m - 1);
        lemma_pieces_len(s.subrange(0, m - 1), sep);
        assert(s.subrange(0, m).drop_last() =~= s.subrange(0, m - 1));
    }
}

/// Appending text free of the separator extends the last piece.
proof fn lemma_pieces_extend(s: Seq<char>, t: Seq<char>, sep: char)
    requires
        free_of(t, sep),
    ensures
        pieces(s + t, sep) == pieces(s, sep).update(
            pieces(s, sep).len() - 1,
            pieces(s, sep).last() + t,
        ),
    decreases t.len(),
{
    lemma_pieces_len(s, sep);
    if t.len() == 0 {
        assert(s + t =~= s);
        assert(pieces(s, sep).last() + t =~= pieces(s, sep).last());
        assert(pieces(s, sep).update(pieces(s, sep).len() - 1, pieces(s, sep).last())
            =~= pieces(s, sep));
    } else {
        let t0 = t.drop_last();
        assert(free_of(t0, sep));
        lemma_pieces_extend(s, t0, sep);
        assert((s + t).drop_last() =~= s + t0);
        assert((s + t).last() == t.last());
        assert(pieces(s, sep).last() + t0 + seq![t.last()] =~= pieces(s, sep).last() + t);
        lemma_pieces_len(s + t0, sep);
        assert(t[t.len() - 1] != sep);
        let pp = pieces(s, sep);
        let q = pieces(s + t0, sep);
        assert(q.len() == pp.len());
        assert(q.last() == pp.last() + t0);
        assert((pp.last() + t0).push(t.last()) =~= pp.last() + t);
        assert(pieces(s + t, sep) == q.update(q.len() - 1, q.last().push(t.last())));
        assert(pieces(s + t, sep) =~= pieces(s, sep).update(
            pieces(s, sep).len() - 1,
            pieces(s, sep).last() + t,
        ));
    }
}

/// Splitting a joined text gives the parts back, when no part holds the
/// separator and there is at least one part.
pub proof fn lemma_split_joined(parts: Seq<Seq<char>>, sep: char)
    requires
        parts.len() >= 1,
        forall|i: int| 0 <= i < parts.len() ==> free_of(#[trigger] parts[i], sep),
    ensures
        pieces(joined(parts, seq![sep]), sep) == parts,
    decreases parts.len(),
{
    if parts.len() == 1 {
        lemma_pieces_extend(Seq::<char>::empty(), parts[0], sep);
        assert(Seq::<char>::empty() + parts[0] =~= parts[0]);
        assert(Seq::<char>::empty() + parts[0] =~= parts[0]);
        assert(pieces(parts[0], sep) =~= parts);
    } else {
        let init = parts.drop_last();
        lemma_split_joined(init, sep);
        let x = joined(init, seq![sep]);
        let y = x + seq![sep];
        assert(y.drop_last() =~= x);
        assert(pieces(y, sep) == pieces(x, sep).push(Seq::<char>::empty()));
        lemma_pieces_extend(y, parts.last(), sep);
        assert(joined(parts, seq![sep]) == y + parts.last());
        assert(pieces(joined(parts, seq![sep]), sep) =~= parts);
    }
}

/// Joins `parts` with `sep` between each two.
pub fn join(parts: &Vec<String>, sep: &str) -> (r: String)
    ensures
        r@ == joined(views(parts@), sep@),
{
    let n = parts.len();
    if n == 0 {
        return String::new();
    }
    let mut out = parts[0].clone();
    let mut i: usize = 1;
    assert(views(parts@).subrange(0, 1) =~= seq![parts@[0]@]);
    while i < n
        invariant
            n == parts@.len(),
            1 <= i <= n,
            out@ == joined(views(parts@).subrange(0, i as int), sep@),
        decreases n - i,
    {
        out.append(sep);
        out.append(parts[i].as_str());
        assert(views(parts@).subrange(0, i + 1).drop_last() =~= views(parts@).subrange(
            0,
            i as int,
        ));
        i = i + 1;
    }
    assert(views(parts@).subrange(0, n as int) =~= views(parts@));
    out
}

/// Splits `s` at each occurrence of `sep`.
pub fn split(s: &str, sep: char) -> (r: Vec<String>)
    ensures
        views(r@) == pieces(s@, sep),
{
    let n = s.unicode_len();
    let mut out: Vec<String> = Vec::new();
    let mut start: usize = 0;
    let mut i: usize = 0;
    assert(s@.subrange(0, 0) =~= Seq::<char>::empty());
    assert(views(out@) =~= Seq::<Seq<char>>::empty());
    while i < n
        invariant
            n == s@.len(),
            start <= i <= n,
            pieces(s@.subrange(0, i as int), sep) == views(out@).push(
                s@.subrange(start as int, i as int),
            ),
        decreases n - i,
    {
        assert(s@.subrange(0, i + 1).drop_last() =~= s@.subrange(0, i as int));
        if s.get_char(i) == sep {
            let piece = s.substring_char(start, i).to_owned();
            let ghost before = out@;
            out.push(piece);
            assert(views(out@) =~= views(before).push(piece@));
            i = i + 1;
            start = i;
            assert(s@.subrange(start as int, i as int) =~= Seq::<char>::empty());
        } else {
            assert(s@.subrange(start as int, i + 1) =~= s@.subrange(start as int, i as int).push(
                s@[i as int],
            ));
            assert(views(out@).push(s@.subrange(start as int, i as int)).update(
                views(out@).len() as int,
                s@.subrange(start as int, i + 1),
            ) =~= views(out@).push(s@.subrange(start as int, i + 1)));
            i = i + 1;
        }
    }
    let last = s.substring_char(start, n).to_owned();
    let ghost before = out@;
    out.push(last);
    assert(views(out@) =~= views(before).push(last@));
    assert(s@.subrange(0, n as int) =~= s@);
    out
}

} // verus!
