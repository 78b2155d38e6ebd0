use vstd::prelude::*;

verus! {

/// The first value that `f` gives for an element of `s`, scanning from the front.
pub open spec fn first_some<A, B>(s: Seq<A>, f: spec_fn(A) -> Option<B>) -> Option<B>
    decreases s.len(),
{
    if s.len() == 0 {
        None
    } else {
        match f(s[0]) {
            Some(b) => Some(b),
            None => first_some(s.drop_first(), f),
        }
    }
}

/// One step of a scan: the first value from position `i` on is the value at `i`,
/// or else the first value from `i + 1` on.
pub proof fn lemma_first_some_step<A, B>(s: Seq<A>, f: spec_fn(A) -> Option<B>, i: int)
    requires
        0 <= i < s.len(),
    ensures
        first_some(s.skip(i), f) == match f(s[i]) {
            Some(b) => Some(b),
            None => first_some(s.skip(i + 1), f),
        },
{
    assert(s.skip(i).drop_first() =~= s.skip(i + 1));
}

/// A scan that starts past the end finds nothing; one from the start is a scan of `s`.
pub proof fn lemma_first_some_ends<A, B>(s: Seq<A>, f: spec_fn(A) -> Option<B>)
    ensures
        first_some(s.skip(s.len() as int), f) is None,
        first_some(s.skip(0), f) == first_some(s, f),
{
    assert(s.skip(s.len() as int) =~= Seq::<A>::empty());
    assert(s.skip(0) =~= s);
}

/// The scan finds the value at `i` where no element before `i` gives one.
pub proof fn lemma_first_some_found<A, B>(s: Seq<A>, f: spec_fn(A) -> Option<B>, i: int, b: B)
    requires
        0 <= i < s.len(),
        f(s[i]) == Some(b),
        forall|j: int| 0 <= j < i ==> #[trigger] f(s[j]) is None,
    ensures
        first_some(s, f) == Some(b),
{
    law_first_some_is_first(s, f);
    if let Some(c) = first_some(s, f) {
        let k = choose|k: int| 0 <= k < s.len() && f(s[k]) == Some(c)
            && forall|j: int| 0 <= j < k ==> #[trigger] f(s[j]) is None;
        if k < i {
            assert(f(s[k]) is None);
        } else if k > i {
            assert(f(s[i]) is None);
        }
    } else {
        assert(f(s[i]) is None);
    }
}

/// The scan finds nothing where no element gives a value.
pub proof fn lemma_first_some_none<A, B>(s: Seq<A>, f: spec_fn(A) -> Option<B>)
    requires
        forall|j: int| 0 <= j < s.len() ==> #[trigger] f(s[j]) is None,
    ensures
        first_some(s, f) is None,
{
    law_first_some_is_first(s, f);
    if let Some(c) = first_some(s, f) {
        let k = choose|k: int| 0 <= k < s.len() && f(s[k]) == Some(c)
            && forall|j: int| 0 <= j < k ==> #[trigger] f(s[j]) is None;
        assert(f(s[k]) is None);
    }
}

/// The views of a sequence of strings.
pub open spec fn string_views(s: Seq<String>) -> Seq<Seq<char>> {
    s.map_values(|x: String| x@)
}


/// The first value found comes from the first element that gives one: the
/// elements before it give none.  When nothing is found, no element gives one.
pub proof fn law_first_some_is_first<A, B>(s: Seq<A>, f: spec_fn(A) -> Option<B>)
    ensures
        first_some(s, f) matches Some(b) ==> exists|i: int| 0 <= i < s.len() && f(s[i]) == Some(b)
            && forall|j: int| 0 <= j < i ==> #[trigger] f(s[j]) is None,
        first_some(s, f) is None ==> forall|i: int| 0 <= i < s.len() ==> #[trigger] f(s[i]) is None,
    decreases s.len(),
{
    if s.len() > 0 {
        let t = s.drop_first();
        law_first_some_is_first(t, f);
        if f(s[0]) is None {
            if let Some(b) = first_some(t, f) {
                let i = choose|i: int| 0 <= i < t.len() && f(t[i]) == Some(b)
                    && forall|j: int| 0 <= j < i ==> #[trigger] f(t[j]) is None;
                assert(s[i + 1] == t[i]);
                assert forall|j: int| 0 <= j < i + 1 implies #[trigger] f(s[j]) is None by {
                    if j > 0 {
                        assert(s[j] == t[j - 1]);
                    }
                }
            } else {
                assert forall|i: int| 0 <= i < s.len() implies #[trigger] f(s[i]) is None by {
                    if i > 0 {
                        assert(s[i] == t[i - 1]);
                    }
                }
            }
        }
    }
}

} // verus!
