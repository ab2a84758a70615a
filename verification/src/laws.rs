use vstd::prelude::*;

use crate::handlers::add_effect;
use crate::handlers::delete_effect;
use crate::state::StateView;
use crate::state::state_wf;
use crate::todos::TodoView;
use crate::views::all_completed_of;
use crate::views::has_id;
use crate::views::is_subseq_of;
use crate::views::lemma_remove_id_absent;
use crate::views::lemma_remove_id_keeps_others;
use crate::views::lemma_remove_id_none_left;
use crate::views::lemma_remove_id_subseq;
use crate::views::lemma_subseq_preserves_ids;
use crate::views::remove_id;

verus! {

/// Law: adding a task disturbs no existing task, hands the new task the
/// session's fresh id — one no surviving task bears — and preserves
/// well-formedness, so ids stay distinct and are never reassigned or reused
/// within a session.
pub proof fn lemma_add_keeps_ids(s: StateView, d: Seq<char>)
    requires
        state_wf(s),
        s.next_id < u64::MAX,
    ensures
        state_wf(add_effect(s, d)),
        add_effect(s, d).todos.len() == s.todos.len() + 1,
        forall|i: int| 0 <= i < s.todos.len() ==> add_effect(s, d).todos[i] == s.todos[i],
        add_effect(s, d).todos.last().id == s.next_id,
        !has_id(s.todos, s.next_id),
{
    let after = add_effect(s, d).todos;
    assert forall|i: int, j: int| 0 <= i < j < after.len() implies after[i].id != after[j].id by {
        if j < s.todos.len() {
            assert(s.todos[i].id != s.todos[j].id);
        } else {
            assert(s.todos[i].id < s.next_id);
        }
    }
    if has_id(s.todos, s.next_id) {
        let i = choose|i: int| 0 <= i < s.todos.len() && s.todos[i].id == s.next_id;
        assert(s.todos[i].id < s.next_id);
    }
}

/// Law: deleting removes exactly the tasks bearing the given id — every
/// other task survives, untouched and in order — and preserves
/// well-formedness, so the survivors' ids stay distinct.
pub proof fn lemma_delete_keeps_ids(s: StateView, id: u64)
    requires
        state_wf(s),
    ensures
        state_wf(delete_effect(s, id)),
        is_subseq_of(delete_effect(s, id).todos, s.todos),
        forall|i: int|
            0 <= i < delete_effect(s, id).todos.len() ==> (#[trigger] delete_effect(
                s,
                id,
            ).todos[i]).id != id,
        forall|t: TodoView|
            s.todos.contains(t) && t.id != id ==> #[trigger] delete_effect(
                s,
                id,
            ).todos.contains(t),
{
    lemma_remove_id_subseq(s.todos, id);
    lemma_subseq_preserves_ids(remove_id(s.todos, id), s.todos, s.next_id);
    lemma_remove_id_none_left(s.todos, id);
    lemma_remove_id_keeps_others(s.todos, id);
}

/// Law: deleting an id no task bears leaves the state exactly as it was.
pub proof fn lemma_delete_absent_is_noop(s: StateView, id: u64)
    requires
        !has_id(s.todos, id),
    ensures
        delete_effect(s, id) == s,
{
    lemma_remove_id_absent(s.todos, id);
    assert(delete_effect(s, id) =~= s);
}

/// Law: "all completed" is false of an empty collection, false as soon as
/// one task is incomplete, and true exactly of a non-empty collection whose
/// every task is completed.
pub proof fn lemma_all_completed_cases(ts: Seq<TodoView>)
    ensures
        ts.len() == 0 ==> !all_completed_of(ts),
        (exists|i: int| 0 <= i < ts.len() && !(#[trigger] ts[i]).completed) ==> !all_completed_of(
            ts,
        ),
        (ts.len() > 0 && forall|i: int| 0 <= i < ts.len() ==> (#[trigger] ts[i]).completed)
            ==> all_completed_of(ts),
{
}

} // verus!
