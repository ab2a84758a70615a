use vstd::prelude::*;

use crate::filter::Filter;
use crate::state::State;
use crate::todos::Todo;
use crate::todos::TodoView;
use crate::todos::views_of;

verus! {

/// Whether a task is listed under a filter: `All` lists every task,
/// `Active` the unfinished ones, `Completed` the finished ones.
pub open spec fn matches_filter(f: Filter, t: TodoView) -> bool {
    match f {
        Filter::All => true,
        Filter::Active => !t.completed,
        Filter::Completed => t.completed,
    }
}

/// The tasks listed under a filter, in insertion order.
pub open spec fn visible_of(ts: Seq<TodoView>, f: Filter) -> Seq<TodoView>
    decreases ts.len(),
{
    if ts.len() == 0 {
        Seq::empty()
    } else {
        let rest = visible_of(ts.drop_last(), f);
        if matches_filter(f, ts.last()) {
            rest.push(ts.last())
        } else {
            rest
        }
    }
}

/// How many tasks have the given completion flag: a plain scan of the
/// whole, unfiltered collection.
pub open spec fn count_where(ts: Seq<TodoView>, completed: bool) -> nat
    decreases ts.len(),
{
    if ts.len() == 0 {
        0
    } else {
        count_where(ts.drop_last(), completed) + if ts.last().completed == completed {
            1nat
        } else {
            0nat
        }
    }
}

/// Whether every task is completed; an empty collection does not count as
/// "all completed".
pub open spec fn all_completed_of(ts: Seq<TodoView>) -> bool {
    ts.len() > 0 && forall|i: int| 0 <= i < ts.len() ==> (#[trigger] ts[i]).completed
}

/// The collection with every task bearing the given id removed, order kept.
pub open spec fn remove_id(ts: Seq<TodoView>, id: u64) -> Seq<TodoView>
    decreases ts.len(),
{
    if ts.len() == 0 {
        Seq::empty()
    } else {
        let rest = remove_id(ts.drop_last(), id);
        if ts.last().id == id {
            rest
        } else {
            rest.push(ts.last())
        }
    }
}

/// The collection with every task's completion flag set to the given value;
/// identifiers, descriptions and order are kept.
pub open spec fn set_all(ts: Seq<TodoView>, completed: bool) -> Seq<TodoView> {
    Seq::new(
        ts.len(),
        |i: int| TodoView { completed, description: ts[i].description, id: ts[i].id },
    )
}

/// Whether some task bears the given id.
pub open spec fn has_id(ts: Seq<TodoView>, id: u64) -> bool {
    exists|i: int| 0 <= i < ts.len() && (#[trigger] ts[i]).id == id
}

/// The position of the first task bearing the given id; `ts.len()` if none does.
pub open spec fn index_of_id(ts: Seq<TodoView>, id: u64) -> int
    decreases ts.len(),
{
    if ts.len() == 0 {
        0
    } else if ts[0].id == id {
        0
    } else {
        1 + index_of_id(ts.drop_first(), id)
    }
}

/// No two tasks share an id.
pub open spec fn ids_distinct(ts: Seq<TodoView>) -> bool {
    forall|i: int, j: int| 0 <= i < j < ts.len() ==> ts[i].id != ts[j].id
}

/// Every task's id is below the bound.
pub open spec fn ids_bounded(ts: Seq<TodoView>, bound: u64) -> bool {
    forall|i: int| 0 <= i < ts.len() ==> (#[trigger] ts[i]).id < bound
}

/// `a` is `b` with zero or more elements removed: the surviving elements
/// keep their relative order.
pub open spec fn is_subseq_of(a: Seq<TodoView>, b: Seq<TodoView>) -> bool
    decreases a.len() + b.len(),
{
    if a.len() == 0 {
        true
    } else if b.len() == 0 {
        false
    } else if a.last() == b.last() {
        is_subseq_of(a.drop_last(), b.drop_last())
    } else {
        is_subseq_of(a, b.drop_last())
    }
}

/// The position of the first match is determined: if everything before `i`
/// misses the id and position `i` bears it, then `i` is `index_of_id`.
pub proof fn lemma_index_of_id_unique(ts: Seq<TodoView>, id: u64, i: int)
    requires
        0 <= i < ts.len(),
        ts[i].id == id,
        forall|j: int| 0 <= j < i ==> ts[j].id != id,
    ensures
        index_of_id(ts, id) == i,
    decreases ts.len(),
{
    if i == 0 {
    } else {
        let rest = ts.drop_first();
        assert(forall|j: int| 0 <= j < rest.len() ==> rest[j] == ts[j + 1]);
        lemma_index_of_id_unique(rest, id, i - 1);
    }
}

pub proof fn lemma_subseq_drop_last(a: Seq<TodoView>, b: Seq<TodoView>)
    requires
        is_subseq_of(a, b),
        a.len() > 0,
    ensures
        is_subseq_of(a.drop_last(), b),
    decreases a.len() + b.len(),
{
    if a.last() == b.last() {
        lemma_subseq_weaken_right(a.drop_last(), b);
    } else {
        lemma_subseq_drop_last(a, b.drop_last());
        lemma_subseq_weaken_right(a.drop_last(), b);
    }
}

pub proof fn lemma_subseq_weaken_right(a: Seq<TodoView>, b: Seq<TodoView>)
    requires
        b.len() > 0,
        is_subseq_of(a, b.drop_last()),
    ensures
        is_subseq_of(a, b),
    decreases a.len() + b.len(),
{
    if a.len() == 0 {
    } else if a.last() == b.last() {
        lemma_subseq_drop_last(a, b.drop_last());
    } else {
    }
}

pub proof fn lemma_subseq_contains(a: Seq<TodoView>, b: Seq<TodoView>)
    requires
        is_subseq_of(a, b),
    ensures
        forall|i: int| 0 <= i < a.len() ==> b.contains(a[i]),
    decreases a.len() + b.len(),
{
    if a.len() == 0 {
    } else if a.last() == b.last() {
        lemma_subseq_contains(a.drop_last(), b.drop_last());
        assert forall|i: int| 0 <= i < a.len() implies b.contains(a[i]) by {
            if i < a.len() - 1 {
                assert(b.drop_last().contains(a.drop_last()[i]));
                let j = choose|j: int|
                    0 <= j < b.drop_last().len() && b.drop_last()[j] == a.drop_last()[i];
                assert(b[j] == a[i]);
            } else {
                assert(b[b.len() - 1] == a[i]);
            }
        }
    } else {
        lemma_subseq_contains(a, b.drop_last());
        assert forall|i: int| 0 <= i < a.len() implies b.contains(a[i]) by {
            assert(b.drop_last().contains(a[i]));
            let j = choose|j: int| 0 <= j < b.drop_last().len() && b.drop_last()[j] == a[i];
            assert(b[j] == a[i]);
        }
    }
}

/// Removing elements can neither make two ids collide nor raise one past a
/// bound the whole collection obeyed.
pub proof fn lemma_subseq_preserves_ids(a: Seq<TodoView>, b: Seq<TodoView>, bound: u64)
    requires
        is_subseq_of(a, b),
        ids_distinct(b),
        ids_bounded(b, bound),
    ensures
        ids_distinct(a),
        ids_bounded(a, bound),
    decreases a.len() + b.len(),
{
    lemma_subseq_contains(a, b);
    assert forall|i: int| 0 <= i < a.len() implies (#[trigger] a[i]).id < bound by {
        let j = choose|j: int| 0 <= j < b.len() && b[j] == a[i];
        assert(b[j].id < bound);
    }
    if a.len() == 0 {
    } else if a.last() == b.last() {
        lemma_subseq_preserves_ids(a.drop_last(), b.drop_last(), bound);
        lemma_subseq_contains(a.drop_last(), b.drop_last());
        assert forall|i: int, j: int|
            0 <= i < j < a.len() implies a[i].id != a[j].id by {
            if j < a.len() - 1 {
                assert(a.drop_last()[i].id != a.drop_last()[j].id);
            } else {
                assert(b.drop_last().contains(a.drop_last()[i]));
                let m = choose|m: int|
                    0 <= m < b.drop_last().len() && b.drop_last()[m] == a.drop_last()[i];
                assert(b[m].id != b[b.len() - 1].id);
                assert(a[j] == b[b.len() - 1]);
            }
        }
    } else {
        assert forall|i: int, j: int|
            0 <= i < j < b.drop_last().len() implies b.drop_last()[i].id != b.drop_last()[j].id by {
            assert(b[i].id != b[j].id);
        }
        lemma_subseq_preserves_ids(a, b.drop_last(), bound);
    }
}

/// What a filter lists is the collection with zero or more tasks removed,
/// relative order kept.
pub proof fn lemma_visible_subseq(ts: Seq<TodoView>, f: Filter)
    ensures
        is_subseq_of(visible_of(ts, f), ts),
    decreases ts.len(),
{
    if ts.len() == 0 {
    } else {
        lemma_visible_subseq(ts.drop_last(), f);
        if matches_filter(f, ts.last()) {
            let v = visible_of(ts, f);
            assert(v.drop_last() =~= visible_of(ts.drop_last(), f));
        } else {
            lemma_subseq_weaken_right(visible_of(ts.drop_last(), f), ts);
        }
    }
}

/// What a filter lists is exactly the matching tasks: every listed task
/// matches the filter, and every matching task is listed.
pub proof fn lemma_visible_members(ts: Seq<TodoView>, f: Filter)
    ensures
        forall|i: int|
            0 <= i < visible_of(ts, f).len() ==> matches_filter(f, #[trigger] visible_of(ts, f)[i]),
        forall|t: TodoView|
            ts.contains(t) && matches_filter(f, t) ==> #[trigger] visible_of(ts, f).contains(t),
    decreases ts.len(),
{
    if ts.len() > 0 {
        lemma_visible_members(ts.drop_last(), f);
        let rest = visible_of(ts.drop_last(), f);
        assert forall|i: int|
            0 <= i < visible_of(ts, f).len() implies matches_filter(
            f,
            #[trigger] visible_of(ts, f)[i],
        ) by {
            if matches_filter(f, ts.last()) && i == visible_of(ts, f).len() - 1 {
                assert(visible_of(ts, f)[i] == ts.last());
            } else {
                assert(visible_of(ts, f)[i] == rest[i]);
            }
        }
        assert forall|t: TodoView|
            ts.contains(t) && matches_filter(f, t) implies #[trigger] visible_of(
            ts,
            f,
        ).contains(t) by {
            let j = choose|j: int| 0 <= j < ts.len() && ts[j] == t;
            if j < ts.len() - 1 {
                assert(ts.drop_last()[j] == t);
                assert(ts.drop_last().contains(t));
                assert(rest.contains(t));
                let k = choose|k: int| 0 <= k < rest.len() && rest[k] == t;
                assert(visible_of(ts, f)[k] == t);
            } else {
                assert(t == ts.last());
                assert(visible_of(ts, f)[visible_of(ts, f).len() - 1] == t);
            }
        }
    }
}

/// Under `All` the listing is the whole collection, untouched.
pub proof fn lemma_visible_all(ts: Seq<TodoView>)
    ensures
        visible_of(ts, Filter::All) == ts,
    decreases ts.len(),
{
    if ts.len() == 0 {
        assert(visible_of(ts, Filter::All) =~= ts);
    } else {
        lemma_visible_all(ts.drop_last());
        assert(visible_of(ts, Filter::All) =~= ts);
    }
}

/// Deleting removes tasks only: what survives, survives in order.
pub proof fn lemma_remove_id_subseq(ts: Seq<TodoView>, id: u64)
    ensures
        is_subseq_of(remove_id(ts, id), ts),
    decreases ts.len(),
{
    if ts.len() == 0 {
    } else {
        lemma_remove_id_subseq(ts.drop_last(), id);
        if ts.last().id != id {
            let v = remove_id(ts, id);
            assert(v.drop_last() =~= remove_id(ts.drop_last(), id));
        } else {
            lemma_subseq_weaken_right(remove_id(ts.drop_last(), id), ts);
        }
    }
}

/// No task bearing the deleted id survives a deletion.
pub proof fn lemma_remove_id_none_left(ts: Seq<TodoView>, id: u64)
    ensures
        forall|i: int|
            0 <= i < remove_id(ts, id).len() ==> (#[trigger] remove_id(ts, id)[i]).id != id,
    decreases ts.len(),
{
    if ts.len() > 0 {
        lemma_remove_id_none_left(ts.drop_last(), id);
        let rest = remove_id(ts.drop_last(), id);
        assert forall|i: int|
            0 <= i < remove_id(ts, id).len() implies (#[trigger] remove_id(ts, id)[i]).id
            != id by {
            if ts.last().id != id && i == remove_id(ts, id).len() - 1 {
                assert(remove_id(ts, id)[i] == ts.last());
            } else {
                assert(remove_id(ts, id)[i] == rest[i]);
            }
        }
    }
}

/// Every task bearing another id survives a deletion.
pub proof fn lemma_remove_id_keeps_others(ts: Seq<TodoView>, id: u64)
    ensures
        forall|t: TodoView|
            ts.contains(t) && t.id != id ==> #[trigger] remove_id(ts, id).contains(t),
    decreases ts.len(),
{
    if ts.len() > 0 {
        lemma_remove_id_keeps_others(ts.drop_last(), id);
        let rest = remove_id(ts.drop_last(), id);
        assert forall|t: TodoView|
            ts.contains(t) && t.id != id implies #[trigger] remove_id(ts, id).contains(t) by {
            let j = choose|j: int| 0 <= j < ts.len() && ts[j] == t;
            if j < ts.len() - 1 {
                assert(ts.drop_last()[j] == t);
                assert(ts.drop_last().contains(t));
                assert(rest.contains(t));
                let k = choose|k: int| 0 <= k < rest.len() && rest[k] == t;
                if ts.last().id == id {
                    assert(remove_id(ts, id)[k] == t);
                } else {
                    assert(remove_id(ts, id)[k] == t);
                }
            } else {
                assert(t == ts.last());
                assert(remove_id(ts, id)[remove_id(ts, id).len() - 1] == t);
            }
        }
    }
}

/// Deleting an id nothing bears changes nothing.
pub proof fn lemma_remove_id_absent(ts: Seq<TodoView>, id: u64)
    requires
        !has_id(ts, id),
    ensures
        remove_id(ts, id) == ts,
    decreases ts.len(),
{
    if ts.len() == 0 {
        assert(remove_id(ts, id) =~= ts);
    } else {
        assert(forall|j: int| 0 <= j < ts.drop_last().len() ==> ts.drop_last()[j] == ts[j]);
        assert(!has_id(ts.drop_last(), id));
        lemma_remove_id_absent(ts.drop_last(), id);
        assert(ts.last().id != id);
        assert(remove_id(ts, id) =~= ts);
    }
}

/// Active and completed tasks together are the whole collection: the two
/// footer counts always sum to the number of tasks.
pub proof fn lemma_counts_partition(ts: Seq<TodoView>)
    ensures
        count_where(ts, false) + count_where(ts, true) == ts.len(),
    decreases ts.len(),
{
    if ts.len() > 0 {
        lemma_counts_partition(ts.drop_last());
    }
}

/// The tasks listed under the current filter, in insertion order.
pub fn visible_tasks(state: &State) -> (r: Vec<Todo>)
    ensures
        views_of(r@) == visible_of(state@.todos, state@.filter),
{
    broadcast use crate::todos::lemma_views_of_push;

    let ghost all = state@.todos;
    let mut r: Vec<Todo> = Vec::new();
    proof {
        assert(all.take(0) =~= Seq::<TodoView>::empty());
        assert(views_of(r@) =~= visible_of(all.take(0), state@.filter));
    }
    let n = state.todos.len();
    let mut i: usize = 0;
    while i < n
        invariant
            i <= n,
            n == state.todos.len(),
            all == state@.todos,
            views_of(r@) == visible_of(all.take(i as int), state@.filter),
        decreases n - i,
    {
        let t = &state.todos[i];
        proof {
            assert(all.take(i as int + 1).drop_last() =~= all.take(i as int));
            assert(all.take(i as int + 1).last() == all[i as int]);
            assert(t@ == all[i as int]);
        }
        let keep = match state.filter {
            Filter::All => true,
            Filter::Active => !t.completed,
            Filter::Completed => t.completed,
        };
        if keep {
            r.push(t.clone());
        }
        i += 1;
    }
    proof {
        assert(all.take(n as int) =~= all);
    }
    r
}

/// The numbers the footer shows: `(active, completed)` over the whole,
/// unfiltered collection.
pub fn counts(state: &State) -> (r: (usize, usize))
    ensures
        r.0 == count_where(state@.todos, false),
        r.1 == count_where(state@.todos, true),
{
    let ghost all = state@.todos;
    let mut active: usize = 0;
    let mut done: usize = 0;
    proof {
        assert(all.take(0) =~= Seq::<TodoView>::empty());
    }
    let n = state.todos.len();
    let mut i: usize = 0;
    while i < n
        invariant
            i <= n,
            n == state.todos.len(),
            all == state@.todos,
            active + done == i,
            active == count_where(all.take(i as int), false),
            done == count_where(all.take(i as int), true),
        decreases n - i,
    {
        proof {
            assert(all.take(i as int + 1).drop_last() =~= all.take(i as int));
            assert(all.take(i as int + 1).last() == all[i as int]);
        }
        if state.todos[i].completed {
            done = done + 1;
        } else {
            active = active + 1;
        }
        i += 1;
    }
    proof {
        assert(all.take(n as int) =~= all);
    }
    (active, done)
}

/// Whether the collection is non-empty and every task is completed.
pub fn all_completed(state: &State) -> (r: bool)
    ensures
        r == all_completed_of(state@.todos),
{
    let n = state.todos.len();
    if n == 0 {
        return false;
    }
    let mut i: usize = 0;
    while i < n
        invariant
            i <= n,
            n == state.todos.len(),
            n > 0,
            forall|j: int| 0 <= j < i ==> (#[trigger] state@.todos[j]).completed,
        decreases n - i,
    {
        if !state.todos[i].completed {
            proof {
                assert(!(state@.todos[i as int]).completed);
            }
            return false;
        }
        i += 1;
    }
    true
}

} // verus!
