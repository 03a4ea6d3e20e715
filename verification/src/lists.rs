//! Which elements of a list were taken over into another.
use vstd::prelude::*;

verus! {

/// Whether `res` holds what `value` says of the places below `n` that `keep` picks:
/// each of them once, in order, and nothing else. `places` are these places.
pub open spec fn selects_by<A>(
    places: Seq<int>,
    res: Seq<A>,
    value: spec_fn(int) -> A,
    keep: spec_fn(int) -> bool,
    n: nat,
) -> bool {
    &&& places.len() == res.len()
    &&& forall|i: int|
        0 <= i < places.len() ==> 0 <= (#[trigger] places[i]) < n && keep(places[i]) && res[i]
            == value(places[i])
    &&& forall|i: int, j: int|
        0 <= i < j < places.len() ==> (#[trigger] places[i]) < (#[trigger] places[j])
    &&& forall|k: int| 0 <= k < n && #[trigger] keep(k) ==> places.contains(k)
}

/// Whether `res` holds what `value` says of the places below `n` that `keep` picks:
/// each of them once, in order, and nothing else.
pub open spec fn selects<A>(
    res: Seq<A>,
    value: spec_fn(int) -> A,
    keep: spec_fn(int) -> bool,
    n: nat,
) -> bool {
    exists|places: Seq<int>| #[trigger] selects_by(places, res, value, keep, n)
}

/// Nothing is selected from nothing.
pub proof fn lemma_selects_none<A>(value: spec_fn(int) -> A, keep: spec_fn(int) -> bool)
    ensures
        selects(Seq::<A>::empty(), value, keep, 0),
{
    assert(selects_by(Seq::<int>::empty(), Seq::<A>::empty(), value, keep, 0));
}

/// One more place is looked at: it is taken over or left.
pub proof fn lemma_selects_next<A>(
    res: Seq<A>,
    value: spec_fn(int) -> A,
    keep: spec_fn(int) -> bool,
    n: nat,
)
    requires
        selects(res, value, keep, n),
    ensures
        keep(n as int) ==> selects(res.push(value(n as int)), value, keep, n + 1),
        !keep(n as int) ==> selects(res, value, keep, n + 1),
{
    let places = choose|places: Seq<int>| #[trigger] selects_by(places, res, value, keep, n);
    if keep(n as int) {
        let more = places.push(n as int);
        assert forall|k: int| 0 <= k < n + 1 && #[trigger] keep(k) implies more.contains(k) by {
            if k < n {
                let i = places.index_of(k);
                assert(more[i] == k);
            } else {
                assert(more[places.len() as int] == k);
            }
        }
        assert(selects_by(more, res.push(value(n as int)), value, keep, n + 1));
    } else {
        assert(selects_by(places, res, value, keep, n + 1));
    }
}

/// What was taken over are the picked values.
pub proof fn lemma_selected_values<A>(
    res: Seq<A>,
    value: spec_fn(int) -> A,
    keep: spec_fn(int) -> bool,
    n: nat,
)
    requires
        selects(res, value, keep, n),
    ensures
        forall|x: A| #[trigger]
            res.contains(x) <==> exists|k: int|
                0 <= k < n && #[trigger] keep(k) && value(k) == x,
{
    let places = choose|places: Seq<int>| #[trigger] selects_by(places, res, value, keep, n);
    assert forall|x: A| #[trigger] res.contains(x) <==> exists|k: int|
        0 <= k < n && #[trigger] keep(k) && value(k) == x by {
        if res.contains(x) {
            let i = res.index_of(x);
            let k = places[i];
            assert(keep(k) && value(k) == x);
        }
        if exists|k: int| 0 <= k < n && #[trigger] keep(k) && value(k) == x {
            let k = choose|k: int| 0 <= k < n && #[trigger] keep(k) && value(k) == x;
            let i = places.index_of(k);
            assert(places[i] == k);
            assert(res[i] == x);
        }
    }
}

/// Whether `res` is what `part` says of the places below `n`, one behind the other.
/// `cuts` are where the parts begin, and where the last one ends.
pub open spec fn chains_by<A>(
    cuts: Seq<int>,
    res: Seq<A>,
    part: spec_fn(int) -> Seq<A>,
    n: nat,
) -> bool {
    &&& cuts.len() == n + 1
    &&& cuts[0] == 0
    &&& cuts[n as int] == res.len()
    &&& forall|i: int|
        0 <= i < n ==> 0 <= (#[trigger] cuts[i]) <= cuts[i + 1] <= res.len() && res.subrange(
            cuts[i],
            cuts[i + 1],
        ) == part(i)
}

/// Whether `res` is what `part` says of the places below `n`, one behind the other.
pub open spec fn chains<A>(res: Seq<A>, part: spec_fn(int) -> Seq<A>, n: nat) -> bool {
    exists|cuts: Seq<int>| #[trigger] chains_by(cuts, res, part, n)
}

/// No parts make nothing.
pub proof fn lemma_chains_none<A>(part: spec_fn(int) -> Seq<A>)
    ensures
        chains(Seq::<A>::empty(), part, 0),
{
    assert(chains_by(seq![0int], Seq::<A>::empty(), part, 0));
}

/// One more part comes behind the others.
pub proof fn lemma_chains_next<A>(res: Seq<A>, part: spec_fn(int) -> Seq<A>, n: nat)
    requires
        chains(res, part, n),
    ensures
        chains(res + part(n as int), part, n + 1),
{
    let cuts = choose|cuts: Seq<int>| #[trigger] chains_by(cuts, res, part, n);
    let all = res + part(n as int);
    let more = cuts.push(all.len() as int);
    assert forall|i: int| 0 <= i < n + 1 implies 0 <= (#[trigger] more[i]) <= more[i + 1]
        <= all.len() && all.subrange(more[i], more[i + 1]) == part(i) by {
        if i < n {
            assert(cuts[i] == more[i] && cuts[i + 1] == more[i + 1]);
            assert(all.subrange(more[i], more[i + 1]) =~= res.subrange(cuts[i], cuts[i + 1]));
        } else {
            assert(all.subrange(more[i], more[i + 1]) =~= part(i));
        }
    }
    assert(chains_by(more, all, part, n + 1));
}

/// What is in a chain is in one of its parts, and what is in a part is in the chain.
pub proof fn lemma_chained_values<A>(res: Seq<A>, part: spec_fn(int) -> Seq<A>, n: nat)
    requires
        chains(res, part, n),
    ensures
        forall|x: A| #[trigger]
            res.contains(x) <==> exists|i: int| 0 <= i < n && #[trigger] part(i).contains(x),
{
    let cuts = choose|cuts: Seq<int>| #[trigger] chains_by(cuts, res, part, n);
    assert forall|x: A| #[trigger] res.contains(x) <==> exists|i: int|
        0 <= i < n && #[trigger] part(i).contains(x) by {
        if res.contains(x) {
            let k = res.index_of(x);
            lemma_cut_around(cuts, res, part, n, k, n);
            let i = choose|i: int| 0 <= i < n && #[trigger] cuts[i] <= k < cuts[i + 1];
            let at = res.subrange(cuts[i], cuts[i + 1]);
            assert(at[k - cuts[i]] == x);
            assert(part(i).contains(x));
        }
        if exists|i: int| 0 <= i < n && #[trigger] part(i).contains(x) {
            let i = choose|i: int| 0 <= i < n && #[trigger] part(i).contains(x);
            let at = res.subrange(cuts[i], cuts[i + 1]);
            assert(at == part(i));
            let k = at.index_of(x);
            assert(res[cuts[i] + k] == x);
        }
    }
}

proof fn lemma_cut_around<A>(
    cuts: Seq<int>,
    res: Seq<A>,
    part: spec_fn(int) -> Seq<A>,
    n: nat,
    k: int,
    m: nat,
)
    requires
        chains_by(cuts, res, part, n),
        m <= n,
        0 <= k < cuts[m as int],
    ensures
        exists|i: int| 0 <= i < n && #[trigger] cuts[i] <= k < cuts[i + 1],
    decreases m,
{
    if m > 0 {
        if k >= cuts[m - 1] {
            assert(cuts[m - 1] <= k < cuts[m - 1 + 1]);
        } else {
            lemma_cut_around(cuts, res, part, n, k, (m - 1) as nat);
        }
    }
}

} // verus!
