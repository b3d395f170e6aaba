//! Result collection for one dispatch: pairing per-chunk results back up
//! with their chunk indices whatever order the workers finished in, and
//! folding them into one all-or-nothing outcome.

use vstd::prelude::*;
use crate::error::BackendError;

verus! {

/// All-or-nothing aggregation over chunk results in chunk order: the
/// values of all of them when every one succeeded, otherwise the first
/// failure.
pub open spec fn aggregate_spec<T>(s: Seq<Result<T, BackendError>>) -> Result<
    Seq<T>,
    BackendError,
>
    decreases s.len(),
{
    if s.len() == 0 {
        Result::Ok(Seq::empty())
    } else {
        match s.first() {
            Result::Err(e) => Result::Err(e),
            Result::Ok(v) => match aggregate_spec(s.drop_first()) {
                Result::Ok(rest) => Result::Ok(seq![v] + rest),
                Result::Err(e) => Result::Err(e),
            },
        }
    }
}

/// One failed chunk fails the whole dispatch; success needs every chunk,
/// and then keeps every value at its own index.
pub proof fn lemma_aggregate_all_or_nothing<T>(s: Seq<Result<T, BackendError>>)
    ensures
        aggregate_spec(s) is Ok <==> (forall|i: int| 0 <= i < s.len() ==> s[i] is Ok),
        aggregate_spec(s) matches Ok(v) ==> v.len() == s.len() && (forall|i: int|
            0 <= i < s.len() ==> v[i] == s[i]->Ok_0),
        aggregate_spec(s) matches Err(e) ==> (exists|i: int|
            0 <= i < s.len() && ((#[trigger] s[i]) matches Err(e2) && e2 == e)),
    decreases s.len(),
{
    if s.len() > 0 {
        lemma_aggregate_all_or_nothing(s.drop_first());
        let rest = s.drop_first();
        assert(forall|i: int| 0 <= i < rest.len() ==> #[trigger] rest[i] == s[i + 1]);
        if s.first() is Ok {
            match aggregate_spec(rest) {
                Result::Ok(rv) => {
                    let v = aggregate_spec(s)->Ok_0;
                    assert(v == seq![s.first()->Ok_0] + rv);
                    assert forall|i: int| 0 <= i < s.len() implies s[i] is Ok by {
                        if i > 0 {
                            assert(rest[i - 1] is Ok);
                        } else {
                            assert(s[0] == s.first());
                        }
                    }
                    assert forall|i: int| 0 <= i < s.len() implies v[i] == s[i]->Ok_0 by {
                        if i > 0 {
                            assert(v[i] == rv[i - 1]);
                            assert(rv[i - 1] == rest[i - 1]->Ok_0);
                        }
                    }
                },
                Result::Err(e) => {
                    assert(!(aggregate_spec(rest) is Ok));
                    let bad = choose|i: int| 0 <= i < rest.len() && !((#[trigger] rest[i]) is Ok);
                    assert(!(s[bad + 1] is Ok));
                    let i = choose|i: int|
                        0 <= i < rest.len() && ((#[trigger] rest[i]) matches Err(e2) && e2 == e);
                    assert((s[i + 1] matches Err(e2) && e2 == e));
                },
            }
        } else {
            assert(s[0] == s.first());
            assert(!(s[0] is Ok));
            assert((s[0] matches Err(e2) && e2 == aggregate_spec(s)->Err_0));
        }
    } else {
        assert(aggregate_spec(s) == Result::<Seq<T>, BackendError>::Ok(Seq::<T>::empty()));
    }
}

/// `out` holds each paired value at the index its pair names, whatever
/// position the pair occupies.
pub open spec fn reassembly_of<T>(pairs: Seq<(usize, T)>, n: int, out: Seq<T>) -> bool {
    &&& out.len() == n
    &&& forall|j: int|
        0 <= j < pairs.len() ==> (pairs[j].0 as int) < n && out[pairs[j].0 as int] == pairs[j].1
}

/// Some pair names index `i`.
pub open spec fn index_covered<T>(pairs: Seq<(usize, T)>, i: int) -> bool {
    exists|j: int| 0 <= j < pairs.len() && (#[trigger] pairs[j].0 as int) == i
}

/// The pairs cover the indices below `n` exactly once each.
pub open spec fn well_indexed<T>(pairs: Seq<(usize, T)>, n: int) -> bool {
    &&& forall|j: int| 0 <= j < pairs.len() ==> (#[trigger] pairs[j].0 as int) < n
    &&& forall|j: int, k: int|
        0 <= j < k < pairs.len() ==> (#[trigger] pairs[j].0) != (#[trigger] pairs[k].0)
    &&& forall|i: int| 0 <= i < n ==> #[trigger] index_covered(pairs, i)
}

/// Puts per-chunk values tagged with their chunk index back into chunk
/// order. Succeeds exactly when each index below `n` arrived exactly
/// once; a missing, repeated or out-of-range index means a delivery went
/// wrong, and nothing is returned.
pub fn reassemble<T>(n: usize, pairs: Vec<(usize, T)>) -> (r: Option<Vec<T>>)
    ensures
        r is Some <==> well_indexed(pairs@, n as int),
        r matches Some(out) ==> reassembly_of(pairs@, n as int, out@),
{
    let ghost all = pairs@;
    let mut slots: Vec<Option<T>> = Vec::new();
    let mut f: usize = 0;
    while f < n
        invariant
            f <= n,
            slots@.len() == f,
            forall|i: int| 0 <= i < f ==> slots@[i] is None,
        decreases n - f,
    {
        slots.push(None);
        f += 1;
    }
    let mut rest = pairs;
    while rest.len() > 0
        invariant
            all == pairs@,
            slots@.len() == n,
            rest@.len() <= all.len(),
            rest@ == all.subrange(0, rest@.len() as int),
            forall|i: int|
                0 <= i < n ==> (#[trigger] slots@[i] matches Some(v) ==> exists|j: int|
                    rest@.len() <= j < all.len() && (#[trigger] all[j].0 as int) == i && all[j].1
                        == v),
            forall|j: int|
                rest@.len() <= j < all.len() ==> (#[trigger] all[j].0 as int) < n
                    && slots@[all[j].0 as int] == Some(all[j].1),
            forall|j: int, k: int|
                rest@.len() <= j < k < all.len() ==> (#[trigger] all[j].0) != (
                #[trigger] all[k].0),
        decreases rest@.len(),
    {
        let ghost j0 = rest@.len() - 1;
        proof {
            assert(all[j0] == rest@[j0]);
        }
        let (idx, v) = rest.pop().unwrap();
        proof {
            assert(rest@ =~= all.subrange(0, j0));
            assert(all[j0].0 == idx && all[j0].1 == v);
        }
        if idx >= n {
            proof {
                assert((all[j0].0 as int) >= n);
                assert(!well_indexed(all, n as int));
            }
            return None;
        }
        let occupied = slots[idx].is_some();
        if occupied {
            proof {
                let i = idx as int;
                let jprev = choose|j: int|
                    j0 + 1 <= j < all.len() && (#[trigger] all[j].0 as int) == i && all[j].1
                        == slots@[i]->Some_0;
                assert(all[j0].0 == all[jprev].0);
                assert(j0 < jprev < all.len());
                assert(!well_indexed(all, n as int));
            }
            return None;
        }
        proof {
            assert forall|j: int| j0 + 1 <= j < all.len() implies (#[trigger] all[j].0) != idx by {
                if all[j].0 == idx {
                    assert(slots@[all[j].0 as int] == Some(all[j].1));
                }
            }
        }
        slots[idx] = Some(v);
        proof {
            assert forall|i: int|
                0 <= i < n && (#[trigger] slots@[i]) is Some implies exists|j: int|
                j0 <= j < all.len() && (#[trigger] all[j].0 as int) == i && all[j].1
                    == slots@[i]->Some_0 by {
                let v2 = slots@[i]->Some_0;
                if i == idx as int {
                    assert((all[j0].0 as int) == i && all[j0].1 == v2);
                } else {
                    let jw = choose|j: int|
                        j0 + 1 <= j < all.len() && (#[trigger] all[j].0 as int) == i && all[j].1
                            == v2;
                    assert(j0 <= jw < all.len() && (all[jw].0 as int) == i && all[jw].1 == v2);
                }
            }
        }
    }
    let ghost full = slots@;
    proof {
        assert(rest@.len() == 0);
        assert(forall|j: int|
            0 <= j < all.len() ==> (#[trigger] all[j].0 as int) < n && full[all[j].0 as int]
                == Some(all[j].1));
    }
    let mut out: Vec<T> = Vec::new();
    while slots.len() > 0
        invariant
            all == pairs@,
            slots@.len() <= n,
            slots@ == full.subrange(0, slots@.len() as int),
            out@.len() == n - slots@.len(),
            full.len() == n,
            forall|k: int|
                0 <= k < out@.len() ==> full[slots@.len() + k] == Some(#[trigger] out@[k]),
            forall|j: int|
                0 <= j < all.len() ==> (#[trigger] all[j].0 as int) < n && full[all[j].0 as int]
                    == Some(all[j].1),
        decreases slots@.len(),
    {
        let ghost m = slots@.len() - 1;
        let ghost old_out = out@;
        proof {
            assert(full[m] == slots@[m]);
        }
        match slots.pop().unwrap() {
            Some(v) => {
                proof {
                    assert(slots@ =~= full.subrange(0, m));
                    assert(full[m] == Some(v));
                }
                out.insert(0, v);
                proof {
                    assert forall|k: int| 0 <= k < out@.len() implies full[m + k] == Some(
                        #[trigger] out@[k],
                    ) by {
                        if k == 0 {
                            assert(out@[0] == v);
                        } else {
                            assert(out@[k] == old_out[k - 1]);
                        }
                    }
                }
            },
            None => {
                proof {
                    if well_indexed(all, n as int) {
                        assert(index_covered(all, m));
                        let j = choose|j: int|
                            0 <= j < all.len() && (#[trigger] all[j].0 as int) == m;
                        assert(full[all[j].0 as int] == Some(all[j].1));
                        assert(false);
                    }
                }
                return None;
            },
        }
    }
    proof {
        assert(out@.len() == n);
        assert forall|i: int| 0 <= i < n implies #[trigger] index_covered(all, i) by {
            assert(full[i] == Some(out@[i]));
            let j = choose|j: int|
                0 <= j < all.len() && (#[trigger] all[j].0 as int) == i && all[j].1
                    == full[i]->Some_0;
        }
        assert(well_indexed(all, n as int));
        assert forall|j: int|
            0 <= j < all.len() implies (#[trigger] all[j].0 as int) < n && out@[all[j].0 as int]
            == all[j].1 by {
            assert(full[all[j].0 as int] == Some(all[j].1));
            assert(full[all[j].0 as int] == Some(out@[all[j].0 as int]));
        }
        assert(reassembly_of(all, n as int, out@));
    }
    Some(out)
}

/// Reassembly does not depend on arrival order: two completion sequences
/// holding the same tagged results, in whatever orders, put the same
/// value at every index.
pub proof fn lemma_reassembly_order_independent<T>(
    a: Seq<(usize, T)>,
    b: Seq<(usize, T)>,
    n: int,
    out_a: Seq<T>,
    out_b: Seq<T>,
)
    requires
        a.to_multiset() == b.to_multiset(),
        well_indexed(a, n),
        reassembly_of(a, n, out_a),
        reassembly_of(b, n, out_b),
    ensures
        out_a == out_b,
{
    broadcast use vstd::seq_lib::group_to_multiset_ensures;

    assert forall|i: int| 0 <= i < n implies out_a[i] == out_b[i] by {
        assert(index_covered(a, i));
        let j = choose|j: int| 0 <= j < a.len() && (#[trigger] a[j].0 as int) == i;
        assert(out_a[a[j].0 as int] == a[j].1);
        assert(a.contains(a[j])) by {
            assert(a[j] == a[j]);
        }
        assert(a.to_multiset().count(a[j]) > 0);
        assert(b.contains(a[j]));
        let k = choose|k: int| 0 <= k < b.len() && b[k] == a[j];
        assert(out_b[b[k].0 as int] == b[k].1);
    }
    assert(out_a =~= out_b);
}

/// Folds the tagged per-chunk outcomes of one dispatch into a single
/// result: the values in chunk order when every chunk succeeded and every
/// index was delivered exactly once; the failure of a chunk otherwise, or
/// a delivery error when an index never arrived cleanly.
pub fn collect_indexed<T>(n: usize, pairs: Vec<(usize, Result<T, BackendError>)>) -> (r: Result<
    Vec<T>,
    BackendError,
>)
    ensures
        r is Ok <==> (well_indexed(pairs@, n as int) && (forall|j: int|
            0 <= j < pairs@.len() ==> (#[trigger] pairs@[j].1) is Ok)),
        r matches Ok(v) ==> v@.len() == n && (forall|j: int|
            0 <= j < pairs@.len() ==> v@[(#[trigger] pairs@[j].0) as int] == pairs@[j].1->Ok_0),
        !well_indexed(pairs@, n as int) ==> r == Result::<Vec<T>, BackendError>::Err(
            BackendError::Delivery,
        ),
        r matches Err(e) ==> e == BackendError::Delivery || (exists|j: int|
            0 <= j < pairs@.len() && ((#[trigger] pairs@[j].1) matches Err(e2) && e2 == e)),
{
    match reassemble(n, pairs) {
        None => Err(BackendError::Delivery),
        Some(ordered) => {
            let ghost osq = ordered@;
            let r = aggregate_results(ordered);
            proof {
                lemma_aggregate_all_or_nothing(osq);
                assert(well_indexed(pairs@, n as int));
                assert(reassembly_of(pairs@, n as int, osq));
                if forall|j: int| 0 <= j < pairs@.len() ==> (#[trigger] pairs@[j].1) is Ok {
                    assert forall|i: int| 0 <= i < osq.len() implies osq[i] is Ok by {
                        assert(index_covered(pairs@, i));
                        let j = choose|j: int|
                            0 <= j < pairs@.len() && (#[trigger] pairs@[j].0 as int) == i;
                        assert(osq[(pairs@[j].0 as int)] == pairs@[j].1);
                    }
                }
                if aggregate_spec(osq) is Err {
                    let e = aggregate_spec(osq)->Err_0;
                    let i = choose|i: int|
                        0 <= i < osq.len() && ((#[trigger] osq[i]) matches Err(e2) && e2 == e);
                    assert(index_covered(pairs@, i));
                    let j = choose|j: int|
                        0 <= j < pairs@.len() && (#[trigger] pairs@[j].0 as int) == i;
                    assert(osq[(pairs@[j].0 as int)] == pairs@[j].1);
                    assert((pairs@[j].1 matches Err(e2) && e2 == e));
                }
            }
            r
        },
    }
}

/// Joins per-chunk texts with nothing between them, the shape the
/// translation endpoint returns.
pub fn concat_strings(parts: &Vec<String>) -> (r: String)
    ensures
        r@ == parts.deep_view().flatten(),
{
    let ghost dv = parts.deep_view();
    let mut acc = String::new();
    let mut i: usize = 0;
    while i < parts.len()
        invariant
            dv == parts.deep_view(),
            i <= parts@.len(),
            dv.len() == parts@.len(),
            acc@ == dv.subrange(0, i as int).flatten(),
        decreases parts@.len() - i,
    {
        acc.append(parts[i].as_str());
        proof {
            assert(dv.subrange(0, i + 1) =~= dv.subrange(0, i as int).push(dv[i as int]));
            dv.subrange(0, i as int).lemma_flatten_push(dv[i as int]);
        }
        i += 1;
    }
    proof {
        assert(dv.subrange(0, dv.len() as int) =~= dv);
    }
    acc
}

/// Per-chunk texts joined by single spaces, the shape the summarization
/// and dialogue endpoints return.
pub open spec fn join_space_spec(ss: Seq<Seq<char>>) -> Seq<char>
    decreases ss.len(),
{
    if ss.len() == 0 {
        Seq::empty()
    } else if ss.len() == 1 {
        ss[0]
    } else {
        ss[0] + " "@ + join_space_spec(ss.drop_first())
    }
}

proof fn lemma_join_space_push(ss: Seq<Seq<char>>, x: Seq<char>)
    ensures
        join_space_spec(ss.push(x)) == if ss.len() == 0 {
            x
        } else {
            join_space_spec(ss) + " "@ + x
        },
    decreases ss.len(),
{
    let p = ss.push(x);
    if ss.len() == 0 {
        assert(p.len() == 1);
        assert(p[0] == x);
    } else {
        lemma_join_space_push(ss.drop_first(), x);
        assert(p.drop_first() =~= ss.drop_first().push(x));
        assert(p[0] == ss[0]);
        if ss.len() == 1 {
            assert(join_space_spec(p) == ss[0] + " "@ + x);
            assert(join_space_spec(ss) == ss[0]);
        } else {
            assert(join_space_spec(p) == ss[0] + " "@ + (join_space_spec(ss.drop_first()) + " "@
                + x));
            assert(ss[0] + " "@ + (join_space_spec(ss.drop_first()) + " "@ + x) =~= (ss[0] + " "@
                + join_space_spec(ss.drop_first())) + " "@ + x);
        }
    }
}

/// Joins per-chunk texts with single spaces between them.
pub fn join_space(parts: &Vec<String>) -> (r: String)
    ensures
        r@ == join_space_spec(parts.deep_view()),
{
    let ghost dv = parts.deep_view();
    let mut acc = String::new();
    let mut i: usize = 0;
    while i < parts.len()
        invariant
            dv == parts.deep_view(),
            i <= parts@.len(),
            dv.len() == parts@.len(),
            acc@ == join_space_spec(dv.subrange(0, i as int)),
        decreases parts@.len() - i,
    {
        if i > 0 {
            acc.append(" ");
        }
        acc.append(parts[i].as_str());
        proof {
            let pre = dv.subrange(0, i as int);
            assert(dv.subrange(0, i + 1) =~= pre.push(dv[i as int]));
            lemma_join_space_push(pre, dv[i as int]);
            if i == 0 {
                assert(Seq::<char>::empty() + dv[0] =~= dv[0]);
            }
        }
        i += 1;
    }
    proof {
        assert(dv.subrange(0, dv.len() as int) =~= dv);
    }
    acc
}

/// Runs the all-or-nothing fold over results already in chunk order.
pub fn aggregate_results<T>(results: Vec<Result<T, BackendError>>) -> (r: Result<
    Vec<T>,
    BackendError,
>)
    ensures
        r matches Ok(v) ==> aggregate_spec(results@) matches Ok(sv) && v@ == sv,
        r matches Err(e) ==> aggregate_spec(results@) matches Err(e2) && e2 == e,
{
    let ghost all = results@;
    let mut out: Vec<T> = Vec::new();
    let mut rest = results;
    while rest.len() > 0
        invariant
            all == results@,
            aggregate_spec(all) == (match aggregate_spec(rest@) {
                Result::Ok(tail) => Result::<Seq<T>, BackendError>::Ok(out@ + tail),
                Result::Err(e) => Result::<Seq<T>, BackendError>::Err(e),
            }),
        decreases rest@.len(),
    {
        let ghost pre = rest@;
        match rest.remove(0) {
            Ok(v) => {
                proof {
                    assert(pre.first() == Result::<T, BackendError>::Ok(v));
                    assert(rest@ =~= pre.drop_first());
                }
                let ghost old_out = out@;
                out.push(v);
                proof {
                    if aggregate_spec(rest@) is Ok {
                        let tail = aggregate_spec(rest@)->Ok_0;
                        assert(old_out + (seq![v] + tail) =~= out@ + tail);
                    }
                }
            },
            Err(e) => {
                proof {
                    assert(pre.first() == Result::<T, BackendError>::Err(e));
                }
                return Err(e);
            },
        }
    }
    proof {
        assert(rest@.len() == 0);
        assert(aggregate_spec(rest@) == Result::<Seq<T>, BackendError>::Ok(Seq::<T>::empty()));
        assert(out@ + Seq::<T>::empty() =~= out@);
    }
    Ok(out)
}

} // verus!
