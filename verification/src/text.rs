use vstd::prelude::*;

verus! {

/// The pieces of `s` between occurrences of `sep`, in order; `s` with no
/// `sep` in it is one piece, and the empty text is one empty piece.
pub open spec fn split_on(s: Seq<char>, sep: char) -> Seq<Seq<char>>
    decreases s.len(),
{
    if s.len() == 0 {
        seq![Seq::<char>::empty()]
    } else {
        let pieces = split_on(s.drop_last(), sep);
        if s.last() == sep {
            pieces.push(Seq::<char>::empty())
        } else {
            pieces.update(pieces.len() - 1, pieces.last().push(s.last()))
        }
    }
}

/// The pieces laid end to end with `sep` between each two of them.
pub open spec fn join_with(pieces: Seq<Seq<char>>, sep: char) -> Seq<char>
    decreases pieces.len(),
{
    if pieces.len() == 0 {
        Seq::<char>::empty()
    } else if pieces.len() == 1 {
        pieces[0]
    } else {
        join_with(pieces.drop_last(), sep).push(sep) + pieces.last()
    }
}

/// The views of a sequence of string slices.
pub open spec fn str_views(v: Seq<&str>) -> Seq<Seq<char>> {
    v.map_values(|x: &str| x@)
}

/// Splitting never yields zero pieces.
pub proof fn lemma_split_nonempty(s: Seq<char>, sep: char)
    ensures
        split_on(s, sep).len() >= 1,
    decreases s.len(),
{
    if s.len() > 0 {
        lemma_split_nonempty(s.drop_last(), sep);
    }
}

/// Joining the pieces of a split with the same separator gives back the text,
/// and no piece holds the separator.
pub proof fn lemma_split_join(s: Seq<char>, sep: char)
    ensures
        join_with(split_on(s, sep), sep) == s,
        forall|i: int|
            0 <= i < split_on(s, sep).len() ==> !(#[trigger] split_on(s, sep)[i]).contains(sep),
    decreases s.len(),
{
    if s.len() == 0 {
        assert(join_with(split_on(s, sep), sep) =~= s);
        assert forall|i: int| 0 <= i < split_on(s, sep).len() implies !(
        #[trigger] split_on(s, sep)[i]).contains(sep) by {
            assert(split_on(s, sep)[i].len() == 0);
        }
    } else {
        let t = s.drop_last();
        let p = split_on(t, sep);
        lemma_split_nonempty(t, sep);
        lemma_split_join(t, sep);
        let q = split_on(s, sep);
        if s.last() == sep {
            assert(q.drop_last() =~= p);
            assert(join_with(q, sep) =~= s);
            assert forall|i: int| 0 <= i < q.len() implies !(#[trigger] q[i]).contains(sep) by {
                if i < p.len() {
                    assert(q[i] == p[i]);
                } else {
                    assert(q[i].len() == 0);
                }
            }
        } else {
            let n = p.len();
            if n == 1 {
                assert(q[0] == p[0].push(s.last()));
                assert(join_with(p, sep) == p[0]);
                assert(q.len() == 1);
                assert(s =~= t.push(s.last()));
                assert(join_with(q, sep) == q[0]);
                assert(q[0] =~= s);
            } else {
                assert(q.drop_last() =~= p.drop_last());
                assert(join_with(q, sep) =~= join_with(p.drop_last(), sep).push(sep) + p.last().push(
                    s.last(),
                ));
                assert(join_with(p, sep) == join_with(p.drop_last(), sep).push(sep) + p.last());
                assert(s =~= t.push(s.last()));
                assert(join_with(q, sep) =~= s);
            }
            assert forall|i: int| 0 <= i < q.len() implies !(#[trigger] q[i]).contains(sep) by {
                if i < n - 1 {
                    assert(q[i] == p[i]);
                } else {
                    let last = p[n - 1];
                    assert(q[i] == last.push(s.last()));
                    assert(!last.contains(sep));
                    if q[i].contains(sep) {
                        let k = choose|k: int| 0 <= k < q[i].len() && q[i][k] == sep;
                        if k < last.len() {
                            assert(last[k] == sep);
                        }
                    }
                }
            }
        }
    }
}

/// Splits `s` at every occurrence of `sep`, as `str::split` with a character
/// pattern does.
pub fn split_char<'a>(s: &'a str, sep: char) -> (r: Vec<&'a str>)
    ensures
        str_views(r@) == split_on(s@, sep),
{
    let n = s.unicode_len();
    let mut pieces: Vec<&'a str> = Vec::new();
    let mut start: usize = 0;
    let mut i: usize = 0;
    assert(s@.subrange(0, 0) =~= Seq::<char>::empty());
    assert(str_views(pieces@).push(s@.subrange(0, 0)) =~= seq![Seq::<char>::empty()]);
    while i < n
        invariant
            n == s@.len(),
            start <= i <= n,
            str_views(pieces@).push(s@.subrange(start as int, i as int)) == split_on(
                s@.subrange(0, i as int),
                sep,
            ),
        decreases n - i,
    {
        let c = s.get_char(i);
        let ghost prefix = s@.subrange(0, i + 1);
        assert(prefix.drop_last() =~= s@.subrange(0, i as int));
        assert(prefix.last() == c);
        if c == sep {
            let piece = s.substring_char(start, i);
            let ghost before = str_views(pieces@);
            pieces.push(piece);
            assert(str_views(pieces@) =~= before.push(piece@));
            start = i + 1;
            assert(s@.subrange(start as int, i + 1) =~= Seq::<char>::empty());
        } else {
            let ghost before = str_views(pieces@);
            assert(s@.subrange(start as int, i + 1) =~= s@.subrange(start as int, i as int).push(c));
            let ghost cur = before.push(s@.subrange(start as int, i as int));
            assert(cur.update(cur.len() - 1, cur.last().push(c)) =~= before.push(
                s@.subrange(start as int, i + 1),
            ));
        }
        i = i + 1;
    }
    assert(s@.subrange(0, n as int) =~= s@);
    let last = s.substring_char(start, n);
    let ghost before = str_views(pieces@);
    pieces.push(last);
    assert(str_views(pieces@) =~= before.push(last@));
    pieces
}

/// The views of string slices are taken one by one, in place.
pub proof fn lemma_str_views_elementwise(v: Seq<&str>)
    ensures
        str_views(v).len() == v.len(),
        forall|i: int| 0 <= i < v.len() ==> str_views(v)[i] == v[i]@,
{
}

/// Joining: no pieces give the empty text, one piece gives itself, and each
/// further piece follows a separator.
pub proof fn lemma_join_law(pieces: Seq<Seq<char>>, piece: Seq<char>, sep: char)
    ensures
        join_with(Seq::<Seq<char>>::empty(), sep) == Seq::<char>::empty(),
        join_with(seq![piece], sep) == piece,
        pieces.len() > 0 ==> join_with(pieces.push(piece), sep) == join_with(pieces, sep).push(sep)
            + piece,
{
    assert(pieces.push(piece).drop_last() =~= pieces);
}

} // verus!
