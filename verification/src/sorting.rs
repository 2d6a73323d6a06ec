//! A stable sort of rows, by the order that a row type gives to its views.

use vstd::prelude::*;

verus! {

/// Rows that can be put in order. `before` is a strict weak order on the views:
/// two rows of which neither comes before the other keep the order they had.
pub trait Ranked: View + Sized {
    spec fn before(a: Self::V, b: Self::V) -> bool;

    fn comes_before(&self, other: &Self) -> (r: bool)
        ensures
            r == Self::before(self@, other@),
    ;

    /// Of two rows, at most one comes before the other.
    proof fn before_asymmetric(a: Self::V, b: Self::V)
        requires
            Self::before(a, b),
        ensures
            !Self::before(b, a),
    ;

    /// If `a` does not come before `b`, nor `b` before `c`, `a` does not come
    /// before `c`.
    proof fn not_before_transitive(a: Self::V, b: Self::V, c: Self::V)
        requires
            !Self::before(a, b),
            !Self::before(b, c),
        ensures
            !Self::before(a, c),
    ;
}

/// The views of the rows of a list.
pub open spec fn views<R: View>(rows: Seq<R>) -> Seq<R::V> {
    rows.map_values(|r: R| r@)
}

/// `row` put into the sorted `rows`, behind every row that it does not come before.
pub open spec fn placed<R: Ranked>(rows: Seq<R::V>, row: R::V) -> Seq<R::V>
    decreases rows.len(),
{
    if rows.len() > 0 && R::before(row, rows.last()) {
        placed::<R>(rows.drop_last(), row).push(rows.last())
    } else {
        rows.push(row)
    }
}

/// `rows` in order; rows of which neither comes before the other keep their order.
pub open spec fn sorted<R: Ranked>(rows: Seq<R::V>) -> Seq<R::V>
    decreases rows.len(),
{
    if rows.len() == 0 {
        rows
    } else {
        placed::<R>(sorted::<R>(rows.drop_last()), rows.last())
    }
}

/// No row of the list comes before one that stands ahead of it.
pub open spec fn in_rank<R: Ranked>(rows: Seq<R::V>) -> bool {
    forall|i: int, j: int|
        0 <= i < j < rows.len() ==> !R::before(#[trigger] rows[j], #[trigger] rows[i])
}

proof fn lemma_placed<R: Ranked>(rows: Seq<R::V>, row: R::V)
    requires
        in_rank::<R>(rows),
    ensures
        in_rank::<R>(placed::<R>(rows, row)),
        placed::<R>(rows, row).to_multiset() == rows.to_multiset().insert(row),
        forall|k: int|
            0 <= k < placed::<R>(rows, row).len() ==> #[trigger] placed::<R>(rows, row)[k] == row
                || rows.contains(placed::<R>(rows, row)[k]),
    decreases rows.len(),
{
    broadcast use vstd::seq_lib::group_to_multiset_ensures;

    if rows.len() > 0 && R::before(row, rows.last()) {
        let init = rows.drop_last();
        let last = rows.last();
        lemma_placed::<R>(init, row);
        let p = placed::<R>(init, row);
        assert forall|k: int| 0 <= k < p.len() implies !R::before(last, #[trigger] p[k]) by {
            if p[k] == row {
                R::before_asymmetric(row, last);
            } else {
                assert(init.contains(p[k]));
                let m = choose|m: int| 0 <= m < init.len() && init[m] == p[k];
                assert(!R::before(rows[rows.len() - 1], rows[m]));
            }
        }
        let q = p.push(last);
        assert(placed::<R>(rows, row) == q);
        assert forall|i: int, j: int| 0 <= i < j < q.len() implies !R::before(
            #[trigger] q[j],
            #[trigger] q[i],
        ) by {
            if j == p.len() {
                assert(q[i] == p[i]);
            } else {
                assert(q[i] == p[i] && q[j] == p[j]);
            }
        }
        assert(rows =~= init.push(last));
        assert(q.to_multiset() =~= rows.to_multiset().insert(row));
        assert forall|k: int| 0 <= k < q.len() implies #[trigger] q[k] == row || rows.contains(
            q[k],
        ) by {
            if k == p.len() {
                assert(rows[rows.len() - 1] == q[k]);
            } else {
                assert(q[k] == p[k]);
                if p[k] != row {
                    assert(init.contains(p[k]));
                    let m = choose|m: int| 0 <= m < init.len() && init[m] == p[k];
                    assert(rows[m] == q[k]);
                }
            }
        }
    } else {
        let q = rows.push(row);
        assert forall|i: int, j: int| 0 <= i < j < q.len() implies !R::before(
            #[trigger] q[j],
            #[trigger] q[i],
        ) by {
            if j == rows.len() {
                assert(q[i] == rows[i]);
                if i != rows.len() - 1 {
                    assert(!R::before(rows[rows.len() - 1], rows[i]));
                    R::not_before_transitive(row, rows.last(), rows[i]);
                }
            } else {
                assert(q[i] == rows[i] && q[j] == rows[j]);
            }
        }
        assert forall|k: int| 0 <= k < q.len() implies #[trigger] q[k] == row || rows.contains(
            q[k],
        ) by {
            if k < rows.len() {
                assert(rows[k] == q[k]);
            }
        }
    }
}

/// Sorting keeps every row, as often as it occurs, and leaves no row ahead of one
/// that comes before it.
pub proof fn sorting_permutes_and_orders<R: Ranked>(rows: Seq<R::V>)
    ensures
        in_rank::<R>(sorted::<R>(rows)),
        sorted::<R>(rows).to_multiset() == rows.to_multiset(),
        sorted::<R>(rows).len() == rows.len(),
    decreases rows.len(),
{
    broadcast use vstd::seq_lib::group_to_multiset_ensures;

    if rows.len() > 0 {
        sorting_permutes_and_orders::<R>(rows.drop_last());
        lemma_placed::<R>(sorted::<R>(rows.drop_last()), rows.last());
        assert(rows =~= rows.drop_last().push(rows.last()));
    }
    assert(sorted::<R>(rows).to_multiset().len() == rows.to_multiset().len());
}

/// The rows in order; rows that rank alike stay in the order they came.
pub fn sort<R: Ranked>(rows: Vec<R>) -> (r: Vec<R>)
    ensures
        views(r@) == sorted::<R>(views(rows@)),
{
    let mut todo = rows;
    let mut back: Vec<R> = Vec::new();
    let ghost all = views(todo@);
    // Turn the list round, so that its rows can be taken from the front by `pop`.
    while todo.len() > 0
        invariant
            views(todo@) + views(back@).reverse() == all,
        decreases todo@.len(),
    {
        let ghost t = todo@;
        let ghost b = back@;
        let row = todo.pop().unwrap();
        back.push(row);
        assert(views(todo@) =~= views(t).drop_last());
        assert(views(back@).reverse() =~= seq![views(t).last()] + views(b).reverse());
        assert(views(todo@) + views(back@).reverse() =~= all);
    }
    assert(views(back@).reverse() =~= all);
    let mut out: Vec<R> = Vec::new();
    let ghost mut n: int = 0;
    assert(all.take(0) =~= Seq::<R::V>::empty());
    assert(views(out@) =~= sorted::<R>(all.take(0)));
    while back.len() > 0
        invariant
            0 <= n,
            n + back@.len() == all.len(),
            views(back@).reverse() == all.skip(n),
            views(out@) == sorted::<R>(all.take(n)),
        decreases back@.len(),
    {
        let ghost b = back@;
        let row = back.pop().unwrap();
        proof {
            assert(views(back@) =~= views(b).drop_last());
            assert(all.skip(n)[0] == views(b).reverse()[0]);
            assert(row@ == all[n]);
            assert(views(b).reverse().drop_first() =~= views(back@).reverse());
            assert(all.skip(n).drop_first() =~= all.skip(n + 1));
            assert(all.take(n + 1).drop_last() =~= all.take(n));
        }
        place(&mut out, row);
        proof {
            n = n + 1;
        }
    }
    assert(all.take(n) =~= all);
    out
}

fn place<R: Ranked>(out: &mut Vec<R>, row: R)
    ensures
        views(final(out)@) == placed::<R>(views(old(out)@), row@),
{
    let ghost before = views(out@);
    let mut i: usize = out.len();
    let ghost mut tail = Seq::<R::V>::empty();
    assert(before.take(i as int) =~= before);
    while i > 0 && row.comes_before(&out[i - 1])
        invariant
            i <= out@.len(),
            before == views(out@),
            tail == before.skip(i as int),
            placed::<R>(before, row@) == placed::<R>(before.take(i as int), row@) + tail,
        decreases i,
    {
        proof {
            let head = before.take(i as int);
            assert(head.drop_last() =~= before.take(i - 1));
            assert(head.last() == before[i - 1]);
            let next = before.skip(i - 1);
            assert(placed::<R>(before.take(i - 1), row@).push(head.last()) + tail =~= placed::<R>(
                before.take(i - 1),
                row@,
            ) + next);
            tail = next;
        }
        i = i - 1;
    }
    proof {
        let head = before.take(i as int);
        if i > 0 {
            assert(head.last() == before[i - 1]);
        }
        assert(placed::<R>(head, row@) == head.push(row@));
    }
    out.insert(i, row);
    assert(views(out@) =~= before.take(i as int).push(row@) + before.skip(i as int));
}

} // verus!
