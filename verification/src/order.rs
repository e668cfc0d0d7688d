use vstd::prelude::*;

verus! {

/// Lexicographic order on texts, character by character; a proper prefix
/// comes first. On strings this is the order of their UTF-8 bytes, which is
/// how `String` values are ordered.
pub open spec fn lex_lt(a: Seq<char>, b: Seq<char>) -> bool
    decreases a.len(),
{
    if a.len() == 0 {
        b.len() > 0
    } else if b.len() == 0 {
        false
    } else if a[0] != b[0] {
        (a[0] as int) < (b[0] as int)
    } else {
        lex_lt(a.drop_first(), b.drop_first())
    }
}

/// Every text comes strictly before every later one.
pub open spec fn strictly_sorted(s: Seq<Seq<char>>) -> bool {
    forall|i: int, j: int| 0 <= i < j < s.len() ==> lex_lt(#[trigger] s[i], #[trigger] s[j])
}

/// The views of a sequence of strings.
pub open spec fn string_views(v: Seq<String>) -> Seq<Seq<char>> {
    v.map_values(|x: String| x@)
}

pub proof fn lemma_lex_irreflexive(a: Seq<char>)
    ensures
        !lex_lt(a, a),
    decreases a.len(),
{
    if a.len() > 0 {
        lemma_lex_irreflexive(a.drop_first());
    }
}

pub proof fn lemma_lex_asymmetric(a: Seq<char>, b: Seq<char>)
    requires
        lex_lt(a, b),
    ensures
        !lex_lt(b, a),
    decreases a.len(),
{
    if a.len() > 0 && b.len() > 0 && a[0] == b[0] {
        lemma_lex_asymmetric(a.drop_first(), b.drop_first());
    }
}

pub proof fn lemma_lex_transitive(a: Seq<char>, b: Seq<char>, c: Seq<char>)
    requires
        lex_lt(a, b),
        lex_lt(b, c),
    ensures
        lex_lt(a, c),
    decreases a.len(),
{
    if a.len() > 0 && b.len() > 0 && c.len() > 0 && a[0] == b[0] && b[0] == c[0] {
        lemma_lex_transitive(a.drop_first(), b.drop_first(), c.drop_first());
    }
}

pub proof fn lemma_lex_total(a: Seq<char>, b: Seq<char>)
    requires
        a != b,
    ensures
        lex_lt(a, b) || lex_lt(b, a),
    decreases a.len(),
{
    if a.len() == 0 {
        assert(b.len() > 0) by {
            if b.len() == 0 {
                assert(a =~= b);
            }
        }
    } else if b.len() > 0 && a[0] == b[0] {
        if a.drop_first() == b.drop_first() {
            assert(a =~= seq![a[0]] + a.drop_first());
            assert(b =~= seq![b[0]] + b.drop_first());
        }
        lemma_lex_total(a.drop_first(), b.drop_first());
    } else if b.len() > 0 {
        let x = a[0] as int;
        let y = b[0] as int;
        assert(x != y);
    }
}

/// Whether `a` comes strictly before `b`.
pub fn str_lt(a: &str, b: &str) -> (r: bool)
    ensures
        r == lex_lt(a@, b@),
{
    let n = a.unicode_len();
    let m = b.unicode_len();
    let mut i: usize = 0;
    assert(a@.skip(0) =~= a@);
    assert(b@.skip(0) =~= b@);
    while i < n && i < m
        invariant
            n == a@.len(),
            m == b@.len(),
            i <= n,
            i <= m,
            lex_lt(a@, b@) == lex_lt(a@.skip(i as int), b@.skip(i as int)),
        decreases n - i,
    {
        let x = a.get_char(i);
        let y = b.get_char(i);
        assert(a@.skip(i as int)[0] == x);
        assert(b@.skip(i as int)[0] == y);
        if x != y {
            return (x as u32) < (y as u32);
        }
        assert(a@.skip(i as int).drop_first() =~= a@.skip(i + 1));
        assert(b@.skip(i as int).drop_first() =~= b@.skip(i + 1));
        i = i + 1;
    }
    i < m
}

/// Inserts `x` into a strictly sorted list of strings unless a string with the
/// same text is already there.
pub fn insert_sorted_unique(list: &mut Vec<String>, x: String)
    requires
        strictly_sorted(string_views(old(list)@)),
    ensures
        strictly_sorted(string_views(final(list)@)),
        string_views(final(list)@).to_set() == string_views(old(list)@).to_set().insert(x@),
{
    let ghost old_views = string_views(list@);
    let mut p: usize = 0;
    while p < list.len()
        invariant
            string_views(list@) == old_views,
            strictly_sorted(old_views),
            p <= list.len(),
            forall|k: int| 0 <= k < p ==> lex_lt(#[trigger] old_views[k], x@),
        ensures
            string_views(list@) == old_views,
            p <= list.len(),
            forall|k: int| 0 <= k < p ==> lex_lt(#[trigger] old_views[k], x@),
            p < list.len() ==> !lex_lt(old_views[p as int], x@),
        decreases list.len() - p,
    {
        if !str_lt(list[p].as_str(), x.as_str()) {
            break;
        }
        p = p + 1;
    }
    if p < list.len() && list[p] == x {
        assert(old_views[p as int] == x@);
        assert(old_views.to_set().insert(x@) =~= old_views.to_set());
        return;
    }
    proof {
        if p < old_views.len() {
            assert(old_views[p as int] != x@);
            assert(!lex_lt(old_views[p as int], x@));
            lemma_lex_total(old_views[p as int], x@);
            assert(lex_lt(x@, old_views[p as int]));
        }
    }
    list.insert(p, x);
    let ghost new_views = string_views(list@);
    assert(new_views =~= old_views.insert(p as int, x@));
    assert forall|i: int, j: int| 0 <= i < j < new_views.len() implies lex_lt(
        #[trigger] new_views[i],
        #[trigger] new_views[j],
    ) by {
        if j < p {
        } else if j == p {
        } else if i < p {
            assert(new_views[j] == old_views[j - 1]);
            if j - 1 == p {
            } else {
                assert(lex_lt(old_views[p as int], old_views[j - 1]));
                lemma_lex_transitive(x@, old_views[p as int], old_views[j - 1]);
            }
            lemma_lex_transitive(old_views[i], x@, old_views[j - 1]);
        } else if i == p {
            if j - 1 > p {
                assert(lex_lt(old_views[p as int], old_views[j - 1]));
                lemma_lex_transitive(x@, old_views[p as int], old_views[j - 1]);
            }
        } else {
            assert(new_views[i] == old_views[i - 1]);
            assert(new_views[j] == old_views[j - 1]);
        }
    }
    assert(new_views.to_set() =~= old_views.to_set().insert(x@)) by {
        assert forall|v: Seq<char>| new_views.to_set().contains(v) implies old_views.to_set().insert(
            x@,
        ).contains(v) by {
            let k = choose|k: int| 0 <= k < new_views.len() && new_views[k] == v;
            if k < p {
                assert(old_views[k] == v);
            } else if k > p {
                assert(old_views[k - 1] == v);
            }
        }
        assert forall|v: Seq<char>| old_views.to_set().insert(x@).contains(v) implies new_views.to_set().contains(v) by {
            if v == x@ {
                assert(new_views[p as int] == v);
            } else {
                let k = choose|k: int| 0 <= k < old_views.len() && old_views[k] == v;
                if k < p {
                    assert(new_views[k] == v);
                } else {
                    assert(new_views[k + 1] == v);
                }
            }
        }
    }
}

/// The elements of a sequence with one more at its end.
pub proof fn lemma_to_set_push<A>(s: Seq<A>, x: A)
    ensures
        s.push(x).to_set() == s.to_set().insert(x),
{
    assert forall|v: A| s.push(x).to_set().contains(v) implies s.to_set().insert(x).contains(v) by {
        let k = choose|k: int| 0 <= k < s.push(x).len() && s.push(x)[k] == v;
        if k < s.len() {
            assert(s[k] == v);
        }
    }
    assert forall|v: A| s.to_set().insert(x).contains(v) implies s.push(x).to_set().contains(v) by {
        if v == x {
            assert(s.push(x)[s.len() as int] == v);
        } else {
            let k = choose|k: int| 0 <= k < s.len() && s[k] == v;
            assert(s.push(x)[k] == v);
        }
    }
    assert(s.push(x).to_set() =~= s.to_set().insert(x));
}

/// A strictly sorted list of texts is determined by the texts it holds: two
/// such lists with the same elements are the same list. So the order in which
/// URLs were announced, and how often, does not change the list of candidates.
pub proof fn lemma_strictly_sorted_determined_by_set(a: Seq<Seq<char>>, b: Seq<Seq<char>>)
    requires
        strictly_sorted(a),
        strictly_sorted(b),
        a.to_set() == b.to_set(),
    ensures
        a == b,
    decreases a.len(),
{
    if a.len() == 0 {
        if b.len() > 0 {
            assert(b.to_set().contains(b[0]));
        }
        assert(a =~= b);
    } else {
        assert(a.to_set().contains(a[0]));
        assert(b.len() > 0);
        assert(b.to_set().contains(b[0]));
        let k = choose|k: int| 0 <= k < b.len() && b[k] == a[0];
        let j = choose|j: int| 0 <= j < a.len() && a[j] == b[0];
        if k > 0 {
            assert(lex_lt(b[0], b[k]));
            if j > 0 {
                assert(lex_lt(a[0], a[j]));
                lemma_lex_transitive(b[0], a[0], b[0]);
            }
            lemma_lex_irreflexive(b[0]);
        }
        assert(a[0] == b[0]);
        let ra = a.drop_first();
        let rb = b.drop_first();
        assert forall|v: Seq<char>| ra.to_set().contains(v) implies rb.to_set().contains(v) by {
            let i = choose|i: int| 0 <= i < ra.len() && ra[i] == v;
            assert(a[i + 1] == v);
            assert(lex_lt(a[0], v));
            assert(b.to_set().contains(v));
            let m = choose|m: int| 0 <= m < b.len() && b[m] == v;
            if m == 0 {
                lemma_lex_irreflexive(v);
            }
            assert(rb[m - 1] == v);
        }
        assert forall|v: Seq<char>| rb.to_set().contains(v) implies ra.to_set().contains(v) by {
            let i = choose|i: int| 0 <= i < rb.len() && rb[i] == v;
            assert(b[i + 1] == v);
            assert(lex_lt(b[0], v));
            assert(a.to_set().contains(v));
            let m = choose|m: int| 0 <= m < a.len() && a[m] == v;
            if m == 0 {
                lemma_lex_irreflexive(v);
            }
            assert(ra[m - 1] == v);
        }
        assert(ra.to_set() =~= rb.to_set());
        assert forall|x: int, y: int| 0 <= x < y < ra.len() implies lex_lt(
            #[trigger] ra[x],
            #[trigger] ra[y],
        ) by {
            assert(ra[x] == a[x + 1] && ra[y] == a[y + 1]);
        }
        assert forall|x: int, y: int| 0 <= x < y < rb.len() implies lex_lt(
            #[trigger] rb[x],
            #[trigger] rb[y],
        ) by {
            assert(rb[x] == b[x + 1] && rb[y] == b[y + 1]);
        }
        lemma_strictly_sorted_determined_by_set(ra, rb);
        assert(a =~= seq![a[0]] + ra);
        assert(b =~= seq![b[0]] + rb);
    }
}

/// The views of strings are taken one by one, in place.
pub proof fn lemma_string_views_elementwise(v: Seq<String>)
    ensures
        string_views(v).len() == v.len(),
        forall|i: int| 0 <= i < v.len() ==> string_views(v)[i] == v[i]@,
{
}

/// `a` comes before `b` exactly when `a` is a proper prefix of `b`, or at the
/// first position where they differ the character of `a` has the smaller code.
pub proof fn lemma_lex_lt_law(a: Seq<char>, b: Seq<char>)
    ensures
        lex_lt(a, b) <==> ((a.len() < b.len() && a == b.take(a.len() as int)) || exists|k: int|
            0 <= k < a.len() && k < b.len() && a.take(k) == b.take(k) && (a[k] as int) < (
            #[trigger] b[k] as int)),
    decreases a.len(),
{
    if a.len() == 0 {
        assert(a =~= b.take(0));
    } else if b.len() == 0 {
    } else if a[0] != b[0] {
        if a.len() < b.len() && a == b.take(a.len() as int) {
            assert(a[0] == b.take(a.len() as int)[0]);
        }
        if exists|k: int|
            0 <= k < a.len() && k < b.len() && a.take(k) == b.take(k) && (a[k] as int) < (
            #[trigger] b[k] as int) {
            let k = choose|k: int|
                0 <= k < a.len() && k < b.len() && a.take(k) == b.take(k) && (a[k] as int) < (
                #[trigger] b[k] as int);
            if k > 0 {
                assert(a.take(k)[0] == b.take(k)[0]);
            }
        }
        if (a[0] as int) < (b[0] as int) {
            assert(a.take(0) =~= b.take(0));
            assert(0 < a.len() && 0 < b.len() && a.take(0) == b.take(0) && (a[0] as int) < (b[0] as int));
        }
    } else {
        let a1 = a.drop_first();
        let b1 = b.drop_first();
        lemma_lex_lt_law(a1, b1);
        // prefix disjunct
        if a1.len() < b1.len() && a1 == b1.take(a1.len() as int) {
            assert(a =~= seq![a[0]] + a1);
            assert(b.take(a.len() as int) =~= seq![b[0]] + b1.take(a1.len() as int));
            assert(a =~= b.take(a.len() as int));
        }
        if a.len() < b.len() && a == b.take(a.len() as int) {
            assert(a1 =~= b1.take(a1.len() as int));
        }
        // differing-position disjunct
        if exists|k: int|
            0 <= k < a1.len() && k < b1.len() && a1.take(k) == b1.take(k) && (a1[k] as int) < (
            #[trigger] b1[k] as int) {
            let k = choose|k: int|
                0 <= k < a1.len() && k < b1.len() && a1.take(k) == b1.take(k) && (a1[k] as int) < (
                #[trigger] b1[k] as int);
            assert(a.take(k + 1) =~= seq![a[0]] + a1.take(k));
            assert(b.take(k + 1) =~= seq![b[0]] + b1.take(k));
            assert(a[k + 1] == a1[k] && b[k + 1] == b1[k]);
        }
        if exists|k: int|
            0 <= k < a.len() && k < b.len() && a.take(k) == b.take(k) && (a[k] as int) < (
            #[trigger] b[k] as int) {
            let k = choose|k: int|
                0 <= k < a.len() && k < b.len() && a.take(k) == b.take(k) && (a[k] as int) < (
                #[trigger] b[k] as int);
            assert(k > 0);
            assert(a1.take(k - 1) =~= a.take(k).drop_first());
            assert(b1.take(k - 1) =~= b.take(k).drop_first());
            assert(a1[k - 1] == a[k] && b1[k - 1] == b[k]);
        }
    }
}

/// A list is strictly sorted exactly when each text comes strictly before the
/// next one.
pub proof fn lemma_strictly_sorted_law(s: Seq<Seq<char>>)
    ensures
        strictly_sorted(s) <==> forall|i: int| 0 <= i < s.len() - 1 ==> lex_lt(#[trigger] s[i], s[i + 1]),
{
    if forall|i: int| 0 <= i < s.len() - 1 ==> lex_lt(#[trigger] s[i], s[i + 1]) {
        assert forall|i: int, j: int| 0 <= i < j < s.len() implies lex_lt(#[trigger] s[i], #[trigger] s[j]) by {
            lemma_adjacent_chain(s, i, j);
        }
    }
}

proof fn lemma_adjacent_chain(s: Seq<Seq<char>>, i: int, j: int)
    requires
        0 <= i < j < s.len(),
        forall|k: int| 0 <= k < s.len() - 1 ==> lex_lt(#[trigger] s[k], s[k + 1]),
    ensures
        lex_lt(s[i], s[j]),
    decreases j - i,
{
    if j > i + 1 {
        lemma_adjacent_chain(s, i, j - 1);
        assert(lex_lt(s[j - 1], s[j]));
        lemma_lex_transitive(s[i], s[j - 1], s[j]);
    }
}

} // verus!
