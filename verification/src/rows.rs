//! Searching, filtering and updating lists of rows, over the views of the rows.

use vstd::prelude::*;

use crate::sorting::views;

verus! {

/// The first row that meets `p`.
pub open spec fn first_where<V>(rows: Seq<V>, p: spec_fn(V) -> bool) -> Option<V> {
    let found = rows.filter(p);
    if found.len() == 0 {
        None
    } else {
        Some(found[0])
    }
}

pub(crate) proof fn lemma_first_where_at<V>(rows: Seq<V>, p: spec_fn(V) -> bool, i: int)
    requires
        0 <= i < rows.len(),
        p(rows[i]),
        forall|j: int| 0 <= j < i ==> !p(#[trigger] rows[j]),
    ensures
        first_where(rows, p) == Some(rows[i]),
{
    let head = rows.take(i);
    let tail = rows.skip(i + 1);
    assert(rows =~= head + (seq![rows[i]] + tail));
    Seq::filter_distributes_over_add(head, seq![rows[i]] + tail, p);
    assert(head.filter(p) =~= Seq::<V>::empty()) by {
        lemma_filter_none(head, p);
    }
    tail.lemma_filter_prepend(rows[i], p);
}

pub(crate) proof fn lemma_first_where_none<V>(rows: Seq<V>, p: spec_fn(V) -> bool)
    requires
        forall|j: int| 0 <= j < rows.len() ==> !p(#[trigger] rows[j]),
    ensures
        first_where(rows, p) is None,
        rows.filter(p) == Seq::<V>::empty(),
{
    lemma_filter_none(rows, p);
}

proof fn lemma_filter_none<V>(rows: Seq<V>, p: spec_fn(V) -> bool)
    requires
        forall|j: int| 0 <= j < rows.len() ==> !p(#[trigger] rows[j]),
    ensures
        rows.filter(p) == Seq::<V>::empty(),
    decreases rows.len(),
{
    reveal(Seq::filter);
    if rows.len() > 0 {
        assert forall|j: int| 0 <= j < rows.drop_last().len() implies !p(
            #[trigger] rows.drop_last()[j],
        ) by {
            assert(rows[j] == rows.drop_last()[j]);
        }
        lemma_filter_none(rows.drop_last(), p);
    }
}

/// A row that `first_where` gives is a row of the list and meets `p`; where it
/// gives none, no row meets `p`.
pub(crate) proof fn lemma_first_where<V>(rows: Seq<V>, p: spec_fn(V) -> bool)
    ensures
        match first_where(rows, p) {
            Some(row) => p(row) && rows.contains(row),
            None => forall|j: int| 0 <= j < rows.len() ==> !p(#[trigger] rows[j]),
        },
{
    let found = rows.filter(p);
    if found.len() > 0 {
        rows.lemma_filter_pred(p, 0);
        rows.lemma_filter_contains_rev(p, found[0]);
    } else {
        assert forall|j: int| 0 <= j < rows.len() implies !p(#[trigger] rows[j]) by {
            if p(rows[j]) {
                rows.lemma_filter_contains(p, j);
            }
        }
    }
}

/// One row more on a filtered list.
pub(crate) proof fn lemma_filter_step<V>(rows: Seq<V>, p: spec_fn(V) -> bool, i: int)
    requires
        0 <= i < rows.len(),
    ensures
        rows.take(i + 1).filter(p) == if p(rows[i]) {
            rows.take(i).filter(p).push(rows[i])
        } else {
            rows.take(i).filter(p)
        },
{
    reveal(Seq::filter);
    assert(rows.take(i + 1).drop_last() =~= rows.take(i));
}

/// The place of the first row that meets `p`.
pub(crate) fn position<R: View, F: Fn(&R) -> bool>(
    rows: &Vec<R>,
    test: F,
    Ghost(p): Ghost<spec_fn(R::V) -> bool>,
) -> (r: Option<usize>)
    requires
        forall|row: R| #[trigger] test.requires((&row,)),
        forall|row: R, b: bool| #[trigger] test.ensures((&row,), b) ==> b == p(row@),
    ensures
        match r {
            Some(i) => i < rows@.len() && p(rows@[i as int]@) && first_where(views(rows@), p)
                == Some(rows@[i as int]@),
            None => first_where(views(rows@), p) is None,
        },
{
    let mut i: usize = 0;
    while i < rows.len()
        invariant
            i <= rows@.len(),
            forall|row: R| #[trigger] test.requires((&row,)),
            forall|row: R, b: bool| #[trigger] test.ensures((&row,), b) ==> b == p(row@),
            forall|j: int| 0 <= j < i ==> !p(#[trigger] views(rows@)[j]),
        decreases rows@.len() - i,
    {
        if test(&rows[i]) {
            proof {
                lemma_first_where_at(views(rows@), p, i as int);
            }
            return Some(i);
        }
        i = i + 1;
    }
    proof {
        lemma_first_where_none(views(rows@), p);
    }
    None
}

/// Keeps the rows that meet `p`, in their order.
pub(crate) fn retain<R: View, F: Fn(&R) -> bool>(
    rows: &mut Vec<R>,
    test: F,
    Ghost(p): Ghost<spec_fn(R::V) -> bool>,
)
    requires
        forall|row: R| #[trigger] test.requires((&row,)),
        forall|row: R, b: bool| #[trigger] test.ensures((&row,), b) ==> b == p(row@),
    ensures
        views(final(rows)@) == views(old(rows)@).filter(p),
{
    let ghost all = views(rows@);
    let ghost mut seen: int = 0;
    let mut i: usize = 0;
    proof {
        reveal(Seq::filter);
        assert(all.take(0).filter(p) =~= Seq::<R::V>::empty());
        assert(views(rows@).skip(0) =~= all.skip(0));
    }
    while i < rows.len()
        invariant
            0 <= i <= rows@.len(),
            0 <= seen <= all.len(),
            forall|row: R| #[trigger] test.requires((&row,)),
            forall|row: R, b: bool| #[trigger] test.ensures((&row,), b) ==> b == p(row@),
            views(rows@).take(i as int) == all.take(seen).filter(p),
            views(rows@).skip(i as int) == all.skip(seen),
        decreases rows@.len() - i,
    {
        let ghost before = views(rows@);
        proof {
            assert(before.skip(i as int).len() == all.skip(seen).len());
            assert(before.len() - i == all.len() - seen);
            assert(before.skip(i as int)[0] == all.skip(seen)[0]);
            assert(before[i as int] == all[seen]);
            lemma_filter_step(all, p, seen);
            assert(all.skip(seen).drop_first() =~= all.skip(seen + 1));
        }
        if test(&rows[i]) {
            assert(before.take(i + 1) =~= before.take(i as int).push(before[i as int]));
            assert(before.skip(i as int).drop_first() =~= before.skip(i + 1));
            i = i + 1;
        } else {
            let _ = rows.remove(i);
            assert(views(rows@).take(i as int) =~= before.take(i as int));
            assert(views(rows@).skip(i as int) =~= before.skip(i as int).drop_first());
        }
        proof {
            seen = seen + 1;
        }
    }
    proof {
        assert(views(rows@).skip(i as int).len() == 0);
        assert(all.skip(seen).len() == 0);
        assert(all.take(seen) =~= all);
        assert(views(rows@).take(i as int) =~= views(rows@));
    }
}

/// Replaces each row for which `change` gives a new one.
pub(crate) fn update<R: View, F: Fn(&R) -> Option<R>>(
    rows: &mut Vec<R>,
    change: F,
    Ghost(g): Ghost<spec_fn(R::V) -> R::V>,
)
    requires
        forall|row: R| #[trigger] change.requires((&row,)),
        forall|row: R, o: Option<R>| #[trigger]
            change.ensures((&row,), o) ==> match o {
                Some(n) => n@ == g(row@),
                None => g(row@) == row@,
            },
    ensures
        views(final(rows)@) == views(old(rows)@).map_values(g),
{
    let ghost all = views(rows@);
    let mut i: usize = 0;
    while i < rows.len()
        invariant
            i <= rows@.len(),
            rows@.len() == all.len(),
            forall|row: R| #[trigger] change.requires((&row,)),
            forall|row: R, o: Option<R>| #[trigger]
                change.ensures((&row,), o) ==> match o {
                    Some(n) => n@ == g(row@),
                    None => g(row@) == row@,
                },
            forall|j: int| 0 <= j < i ==> #[trigger] rows@[j]@ == g(all[j]),
            forall|j: int| i <= j < all.len() ==> #[trigger] rows@[j]@ == all[j],
        decreases all.len() - i,
    {
        match change(&rows[i]) {
            Some(n) => {
                rows.set(i, n);
            },
            None => {},
        }
        i = i + 1;
    }
    assert(views(rows@) =~= all.map_values(g));
}


/// What `pick` makes of each row that meets `p`.
pub(crate) fn collect<R: View, S: View, F: Fn(&R) -> Option<S>>(
    rows: &Vec<R>,
    pick: F,
    Ghost(p): Ghost<spec_fn(R::V) -> bool>,
    Ghost(f): Ghost<spec_fn(R::V) -> S::V>,
) -> (out: Vec<S>)
    requires
        forall|row: R| #[trigger] pick.requires((&row,)),
        forall|row: R, o: Option<S>| #[trigger]
            pick.ensures((&row,), o) ==> match o {
                Some(s) => p(row@) && s@ == f(row@),
                None => !p(row@),
            },
    ensures
        views(out@) == views(rows@).filter(p).map_values(f),
{
    let ghost all = views(rows@);
    let mut out: Vec<S> = Vec::new();
    let mut i: usize = 0;
    proof {
        reveal(Seq::filter);
        assert(views(out@) =~= all.take(0).filter(p).map_values(f));
    }
    while i < rows.len()
        invariant
            i <= rows@.len(),
            all == views(rows@),
            forall|row: R| #[trigger] pick.requires((&row,)),
            forall|row: R, o: Option<S>| #[trigger]
                pick.ensures((&row,), o) ==> match o {
                    Some(s) => p(row@) && s@ == f(row@),
                    None => !p(row@),
                },
            views(out@) == all.take(i as int).filter(p).map_values(f),
        decreases rows@.len() - i,
    {
        let ghost before = views(out@);
        proof {
            lemma_filter_step(all, p, i as int);
            assert(all[i as int] == rows@[i as int]@);
        }
        match pick(&rows[i]) {
            Some(s) => {
                out.push(s);
                assert(views(out@) =~= before.push(f(all[i as int])));
                assert(all.take(i + 1).filter(p).map_values(f) =~= all.take(i as int).filter(
                    p,
                ).map_values(f).push(f(all[i as int])));
            },
            None => {},
        }
        i = i + 1;
    }
    assert(all.take(i as int) =~= all);
    out
}

/// Where every row meets `p`, nothing is filtered out.
pub(crate) proof fn lemma_filter_all<V>(rows: Seq<V>, p: spec_fn(V) -> bool)
    requires
        forall|j: int| 0 <= j < rows.len() ==> p(#[trigger] rows[j]),
    ensures
        rows.filter(p) == rows,
    decreases rows.len(),
{
    reveal(Seq::filter);
    if rows.len() > 0 {
        let init = rows.drop_last();
        assert forall|j: int| 0 <= j < init.len() implies p(#[trigger] init[j]) by {
            assert(rows[j] == init[j]);
        }
        lemma_filter_all(init, p);
        assert(p(rows[rows.len() - 1]));
        assert(rows =~= init.push(rows.last()));
    } else {
        assert(rows.filter(p) =~= rows);
    }
}


/// Whether every two rows of the list stand to each other as `apart` says.
pub open spec fn pairwise<V>(rows: Seq<V>, apart: spec_fn(V, V) -> bool) -> bool {
    forall|i: int, j: int|
        0 <= i < j < rows.len() ==> apart(#[trigger] rows[i], #[trigger] rows[j])
}

pub open spec fn every<V>(rows: Seq<V>, p: spec_fn(V) -> bool) -> bool {
    forall|i: int| 0 <= i < rows.len() ==> p(#[trigger] rows[i])
}

pub(crate) proof fn lemma_pairwise_push<V>(rows: Seq<V>, row: V, apart: spec_fn(V, V) -> bool)
    requires
        pairwise(rows, apart),
        forall|i: int| 0 <= i < rows.len() ==> apart(#[trigger] rows[i], row),
    ensures
        pairwise(rows.push(row), apart),
{
}

pub(crate) proof fn lemma_every_push<V>(rows: Seq<V>, row: V, p: spec_fn(V) -> bool)
    requires
        every(rows, p),
        p(row),
    ensures
        every(rows.push(row), p),
{
}

pub(crate) proof fn lemma_pairwise_filter<V>(
    rows: Seq<V>,
    p: spec_fn(V) -> bool,
    apart: spec_fn(V, V) -> bool,
)
    requires
        pairwise(rows, apart),
    ensures
        pairwise(rows.filter(p), apart),
    decreases rows.len(),
{
    reveal(Seq::filter);
    if rows.len() > 0 {
        let init = rows.drop_last();
        assert(pairwise(init, apart)) by {
            assert forall|i: int, j: int| 0 <= i < j < init.len() implies apart(
                #[trigger] init[i],
                #[trigger] init[j],
            ) by {
                assert(apart(rows[i], rows[j]));
            }
        }
        lemma_pairwise_filter(init, p, apart);
        let kept = init.filter(p);
        assert forall|i: int| 0 <= i < kept.len() implies apart(#[trigger] kept[i], rows.last()) by {
            init.lemma_filter_contains_rev(p, kept[i]);
            let k = choose|k: int| 0 <= k < init.len() && init[k] == kept[i];
            assert(apart(rows[k], rows[rows.len() - 1]));
        }
        if p(rows.last()) {
            lemma_pairwise_push(kept, rows.last(), apart);
        }
    }
}

/// What holds of every row of a list holds of every row that a filter keeps, and the
/// filter's condition with it.
pub(crate) proof fn lemma_every_filter<V>(rows: Seq<V>, p: spec_fn(V) -> bool, q: spec_fn(V) -> bool)
    requires
        every(rows, q),
    ensures
        every(rows.filter(p), q),
        every(rows.filter(p), p),
{
    let kept = rows.filter(p);
    assert forall|i: int| 0 <= i < kept.len() implies q(#[trigger] kept[i]) && p(kept[i]) by {
        rows.lemma_filter_pred(p, i);
        rows.lemma_filter_contains_rev(p, kept[i]);
        let k = choose|k: int| 0 <= k < rows.len() && rows[k] == kept[i];
        assert(q(rows[k]));
    }
}

pub(crate) proof fn lemma_pairwise_map<V>(
    rows: Seq<V>,
    g: spec_fn(V) -> V,
    apart: spec_fn(V, V) -> bool,
)
    requires
        pairwise(rows, apart),
        forall|a: V, b: V| apart(a, b) ==> #[trigger] apart(g(a), g(b)),
    ensures
        pairwise(rows.map_values(g), apart),
{
    let after = rows.map_values(g);
    assert forall|i: int, j: int| 0 <= i < j < after.len() implies apart(
        #[trigger] after[i],
        #[trigger] after[j],
    ) by {
        assert(apart(rows[i], rows[j]));
        assert(apart(g(rows[i]), g(rows[j])));
    }
}

/// A row that meets `p` makes the search for one succeed.
pub(crate) proof fn lemma_some_where<V>(rows: Seq<V>, p: spec_fn(V) -> bool, row: V)
    requires
        rows.contains(row),
        p(row),
    ensures
        first_where(rows, p) is Some,
{
    lemma_first_where(rows, p);
    let k = choose|k: int| 0 <= k < rows.len() && rows[k] == row;
    assert(p(rows[k]));
}

/// A change of rows that keeps `p` as it was keeps the first row that meets `p`.
pub(crate) proof fn lemma_first_where_map<V>(rows: Seq<V>, p: spec_fn(V) -> bool, g: spec_fn(V) -> V)
    requires
        forall|i: int| 0 <= i < rows.len() ==> p(g(#[trigger] rows[i])) == p(rows[i]),
    ensures
        first_where(rows.map_values(g), p) == match first_where(rows, p) {
            Some(row) => Some(g(row)),
            None => None,
        },
    decreases rows.len(),
{
    reveal(Seq::filter);
    let after = rows.map_values(g);
    if rows.len() > 0 {
        let init = rows.drop_last();
        assert forall|i: int| 0 <= i < init.len() implies p(g(#[trigger] init[i])) == p(init[i]) by {
            assert(rows[i] == init[i]);
        }
        lemma_first_where_map(init, p, g);
        assert(after.drop_last() =~= init.map_values(g));
        assert(p(g(rows[rows.len() - 1])) == p(rows[rows.len() - 1]));
        assert(after.last() == g(rows.last()));
    }
}

/// Where a filter drops no row that meets `p`, the first such row stays the first.
pub(crate) proof fn lemma_first_where_filter<V>(
    rows: Seq<V>,
    p: spec_fn(V) -> bool,
    keep: spec_fn(V) -> bool,
)
    requires
        forall|i: int| 0 <= i < rows.len() && p(#[trigger] rows[i]) ==> keep(rows[i]),
    ensures
        first_where(rows.filter(keep), p) == first_where(rows, p),
    decreases rows.len(),
{
    lemma_filter_filter(rows, p, keep);
}

proof fn lemma_filter_filter<V>(rows: Seq<V>, p: spec_fn(V) -> bool, keep: spec_fn(V) -> bool)
    requires
        forall|i: int| 0 <= i < rows.len() && p(#[trigger] rows[i]) ==> keep(rows[i]),
    ensures
        rows.filter(keep).filter(p) == rows.filter(p),
    decreases rows.len(),
{
    reveal(Seq::filter);
    if rows.len() > 0 {
        let init = rows.drop_last();
        assert forall|i: int| 0 <= i < init.len() && p(#[trigger] init[i]) implies keep(init[i]) by {
            assert(rows[i] == init[i]);
        }
        lemma_filter_filter(init, p, keep);
        let kept = init.filter(keep);
        if keep(rows.last()) {
            assert(kept.push(rows.last()).drop_last() =~= kept);
        } else {
            assert(!p(rows[rows.len() - 1]));
        }
    }
}

/// A row behind rows of which none meets `p` is the first that meets `p`.
pub(crate) proof fn lemma_first_where_push<V>(rows: Seq<V>, row: V, p: spec_fn(V) -> bool)
    ensures
        first_where(rows.push(row), p) == match first_where(rows, p) {
            Some(found) => Some(found),
            None => if p(row) {
                Some(row)
            } else {
                None
            },
        },
{
    reveal(Seq::filter);
    assert(rows.push(row).drop_last() =~= rows);
}

/// Whether every two rows stand to each other as `apart` says.
pub(crate) fn all_pairs<R: View, F: Fn(&R, &R) -> bool>(
    rows: &Vec<R>,
    test: F,
    Ghost(apart): Ghost<spec_fn(R::V, R::V) -> bool>,
) -> (r: bool)
    requires
        forall|a: R, b: R| #[trigger] test.requires((&a, &b)),
        forall|a: R, b: R, c: bool| #[trigger] test.ensures((&a, &b), c) ==> c == apart(a@, b@),
    ensures
        r == pairwise(views(rows@), apart),
{
    let ghost seen = views(rows@);
    let mut j: usize = 0;
    while j < rows.len()
        invariant
            j <= rows@.len(),
            seen == views(rows@),
            forall|a: R, b: R| #[trigger] test.requires((&a, &b)),
            forall|a: R, b: R, c: bool| #[trigger]
                test.ensures((&a, &b), c) ==> c == apart(a@, b@),
            forall|x: int, y: int|
                0 <= x < y < j ==> apart(#[trigger] seen[x], #[trigger] seen[y]),
        decreases rows@.len() - j,
    {
        let mut i: usize = 0;
        while i < j
            invariant
                i <= j < rows@.len(),
                seen == views(rows@),
                forall|a: R, b: R| #[trigger] test.requires((&a, &b)),
                forall|a: R, b: R, c: bool| #[trigger]
                    test.ensures((&a, &b), c) ==> c == apart(a@, b@),
                forall|x: int| 0 <= x < i ==> apart(#[trigger] seen[x], seen[j as int]),
            decreases j - i,
        {
            if !test(&rows[i], &rows[j]) {
                assert(!apart(seen[i as int], seen[j as int]));
                return false;
            }
            assert(apart(seen[i as int], seen[j as int]));
            i = i + 1;
        }
        j = j + 1;
    }
    true
}

} // verus!
