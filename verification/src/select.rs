use vstd::prelude::*;

verus! {

/// The values that `f` picks out of `s`, in the order in which they occur.
pub open spec fn collect_some<A, B>(s: Seq<A>, f: spec_fn(A) -> Option<B>) -> Seq<B>
    decreases s.len(),
{
    if s.len() == 0 {
        Seq::<B>::empty()
    } else {
        let rest = collect_some(s.drop_last(), f);
        match f(s.last()) {
            Some(b) => rest.push(b),
            None => rest,
        }
    }
}

/// The first value that `f` picks out of `s`, if it picks any.
pub open spec fn first_some<A, B>(s: Seq<A>, f: spec_fn(A) -> Option<B>) -> Option<B>
    decreases s.len(),
{
    if s.len() == 0 {
        None
    } else {
        match first_some(s.drop_last(), f) {
            Some(b) => Some(b),
            None => f(s.last()),
        }
    }
}

/// The elements behind a sequence of references.
pub open spec fn deref_all<T>(v: Seq<&T>) -> Seq<T> {
    v.map_values(|x: &T| *x)
}

/// The value behind an optional reference.
pub open spec fn deref_opt<T>(o: Option<&T>) -> Option<T> {
    match o {
        Some(x) => Some(*x),
        None => None,
    }
}

/// The text behind an optional string slice.
pub open spec fn opt_str_view(o: Option<&str>) -> Option<Seq<char>> {
    match o {
        Some(x) => Some(x@),
        None => None,
    }
}

/// One step of a left-to-right scan: the prefix of length `i + 1` is the prefix
/// of length `i` followed by the element at `i`.
pub proof fn lemma_prefix_step<A>(s: Seq<A>, i: int)
    requires
        0 <= i < s.len(),
    ensures
        s.take(i + 1).drop_last() == s.take(i),
        s.take(i + 1).last() == s[i],
        s.take(i + 1).len() == i + 1,
{
    assert(s.take(i + 1).drop_last() =~= s.take(i));
}

/// Once a prefix has a first pick, no later element changes it.
pub proof fn lemma_first_some_extend<A, B>(s: Seq<A>, t: Seq<A>, f: spec_fn(A) -> Option<B>)
    requires
        first_some(s, f) is Some,
    ensures
        first_some(s + t, f) == first_some(s, f),
    decreases t.len(),
{
    if t.len() == 0 {
        assert(s + t =~= s);
    } else {
        assert((s + t).drop_last() =~= s + t.drop_last());
        lemma_first_some_extend(s, t.drop_last(), f);
    }
}

/// Picking from a sequence with one more element at its end: nothing is picked
/// from the empty sequence, and the new element adds its pick, if any, at the end.
pub proof fn lemma_collect_push<A, B>(s: Seq<A>, x: A, f: spec_fn(A) -> Option<B>)
    ensures
        collect_some(Seq::<A>::empty(), f) == Seq::<B>::empty(),
        collect_some(s.push(x), f) == (match f(x) {
            Some(b) => collect_some(s, f).push(b),
            None => collect_some(s, f),
        }),
{
    assert(s.push(x).drop_last() =~= s);
}

/// The first pick of a sequence with one more element at its end: the first
/// pick of the shorter sequence if it has one, else the pick of the new element.
pub proof fn lemma_first_push<A, B>(s: Seq<A>, x: A, f: spec_fn(A) -> Option<B>)
    ensures
        first_some(Seq::<A>::empty(), f) == None::<B>,
        first_some(s.push(x), f) == (match first_some(s, f) {
            Some(b) => Some(b),
            None => f(x),
        }),
{
    assert(s.push(x).drop_last() =~= s);
}

/// The first pick is `b` exactly when some element picks `b` and no earlier
/// element picks anything; there is none exactly when no element picks anything.
pub proof fn lemma_first_some_index<A, B>(s: Seq<A>, f: spec_fn(A) -> Option<B>, b: B)
    ensures
        first_some(s, f) == Some(b) <==> exists|i: int|
            0 <= i < s.len() && f(s[i]) == Some(b) && forall|j: int| 0 <= j < i ==> (#[trigger] f(s[j])) is None,
        first_some(s, f) is None <==> forall|i: int| 0 <= i < s.len() ==> (#[trigger] f(s[i])) is None,
    decreases s.len(),
{
    if s.len() > 0 {
        let t = s.drop_last();
        let n = s.len() - 1;
        lemma_first_some_index(t, f, b);
        assert forall|i: int| 0 <= i < t.len() implies t[i] == s[i] by {}
        if first_some(t, f) is Some {
            assert(first_some(s, f) == first_some(t, f));
            let c = first_some(t, f)->0;
            lemma_first_some_index(t, f, c);
            let k = choose|k: int|
                0 <= k < t.len() && f(t[k]) == Some(c) && forall|j: int| 0 <= j < k ==> (#[trigger] f(t[j])) is None;
            assert(f(s[k]) == Some(c));
            if first_some(s, f) == Some(b) {
                assert(forall|j: int| 0 <= j < k ==> (#[trigger] f(s[j])) is None) by {
                    assert forall|j: int| 0 <= j < k implies (#[trigger] f(s[j])) is None by {
                        assert(f(t[j]) is None);
                    }
                }
            }
            if exists|i: int|
                0 <= i < s.len() && f(s[i]) == Some(b) && forall|j: int| 0 <= j < i ==> (#[trigger] f(s[j])) is None {
                let i = choose|i: int|
                    0 <= i < s.len() && f(s[i]) == Some(b) && forall|j: int| 0 <= j < i ==> (#[trigger] f(s[j])) is None;
                if i > k {
                    assert(f(s[k]) is None);
                } else if i < k {
                    assert(f(t[i]) is None);
                }
            }
        } else {
            assert(first_some(s, f) == f(s[n]));
            assert forall|j: int| 0 <= j < n implies (#[trigger] f(s[j])) is None by {
                assert(f(t[j]) is None);
            }
            if first_some(s, f) == Some(b) {
                assert(f(s[n]) == Some(b));
            }
            if exists|i: int|
                0 <= i < s.len() && f(s[i]) == Some(b) && forall|j: int| 0 <= j < i ==> (#[trigger] f(s[j])) is None {
                let i = choose|i: int|
                    0 <= i < s.len() && f(s[i]) == Some(b) && forall|j: int| 0 <= j < i ==> (#[trigger] f(s[j])) is None;
                if i < n {
                    assert(f(t[i]) is None);
                }
            }
        }
    }
}

/// The view helpers look at each element in place.
pub proof fn lemma_views_elementwise<T>(w: Seq<&T>, o: Option<&T>, q: Option<&str>)
    ensures
        deref_all(w).len() == w.len(),
        forall|i: int| 0 <= i < w.len() ==> deref_all(w)[i] == *w[i],
        deref_opt(o) == (match o {
            Some(x) => Some(*x),
            None => None::<T>,
        }),
        opt_str_view(q) == (match q {
            Some(x) => Some(x@),
            None => None::<Seq<char>>,
        }),
{
}

} // verus!
