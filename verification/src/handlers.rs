use vstd::prelude::*;
use vstd::string::StrSliceExecFns;
use vstd::string::StringExecFns;

use crate::errors::ValidationError;
use crate::filter::Filter;
use crate::fragment::Fragment;
use crate::fragment::FragmentView;
use crate::fragment::Region;
use crate::fragment::SwapMode;
use crate::fragment::footer_frag;
use crate::fragment::footer_fragment;
use crate::fragment::frag_views;
use crate::fragment::list_frag;
use crate::fragment::list_fragment;
use crate::state::State;
use crate::state::StateView;
use crate::state::state_wf;
use crate::todos::Todo;
use crate::todos::TodoPlaceholder;
use crate::todos::TodoView;
use crate::todos::placeholder_html;
use crate::todos::todo_html;
use crate::todos::views_of;
use crate::views::all_completed;
use crate::views::all_completed_of;
use crate::views::has_id;
use crate::views::ids_bounded;
use crate::views::ids_distinct;
use crate::views::index_of_id;
use crate::views::lemma_index_of_id_unique;
use crate::views::lemma_remove_id_subseq;
use crate::views::lemma_subseq_preserves_ids;
use crate::views::lemma_visible_subseq;
use crate::views::remove_id;
use crate::views::set_all;
use crate::views::visible_of;

verus! {

/// What adding a task does to the state: a task with the fresh id is
/// appended, not completed, and the id counter advances.
pub open spec fn add_effect(s: StateView, d: Seq<char>) -> StateView {
    StateView {
        todos: s.todos.push(TodoView { completed: false, description: d, id: s.next_id }),
        filter: s.filter,
        next_id: (s.next_id + 1) as u64,
    }
}

/// What deleting does: every task bearing the id goes, everything else stays.
pub open spec fn delete_effect(s: StateView, id: u64) -> StateView {
    StateView { todos: remove_id(s.todos, id), filter: s.filter, next_id: s.next_id }
}

/// What clearing completed tasks does: only the active tasks survive.
pub open spec fn clear_effect(s: StateView) -> StateView {
    StateView { todos: visible_of(s.todos, Filter::Active), filter: s.filter, next_id: s.next_id }
}

/// What selecting a filter does: only the filter changes.
pub open spec fn select_effect(s: StateView, f: Filter) -> StateView {
    StateView { todos: s.todos, filter: f, next_id: s.next_id }
}

/// What toggle-all does: if not every task is completed, every task becomes
/// completed; if all are, every task becomes active.
pub open spec fn toggle_effect(s: StateView) -> StateView {
    StateView {
        todos: set_all(s.todos, !all_completed_of(s.todos)),
        filter: s.filter,
        next_id: s.next_id,
    }
}

/// A task after an edit/toggle patch: the given fields replace the old ones,
/// the id never changes. The client posts the intended new completion value,
/// which is set as given, not inverted.
pub open spec fn patched_task(t: TodoView, completed: Option<bool>, d: Option<Seq<char>>) -> TodoView {
    TodoView {
        completed: match completed {
            Some(b) => b,
            None => t.completed,
        },
        description: match d {
            Some(x) => x,
            None => t.description,
        },
        id: t.id,
    }
}

/// What patching does: the first (and, in a well-formed state, only) task
/// bearing the id is replaced by its patched form; a state without the id is
/// left as it is.
pub open spec fn patch_effect(s: StateView, id: u64, completed: Option<bool>, d: Option<Seq<char>>) -> StateView {
    if has_id(s.todos, id) {
        let i = index_of_id(s.todos, id);
        StateView {
            todos: s.todos.update(i, patched_task(s.todos[i], completed, d)),
            filter: s.filter,
            next_id: s.next_id,
        }
    } else {
        s
    }
}

/// The description an edit hands in, as a sequence of characters.
pub open spec fn opt_view(d: Option<String>) -> Option<Seq<char>> {
    match d {
        Some(x) => Some(x@),
        None => None,
    }
}

/// Whether an edit hands in a description that must be rejected: present but
/// empty.
pub open spec fn blank_desc(d: Option<String>) -> bool {
    match d {
        Some(x) => x@.len() == 0,
        None => false,
    }
}

/// The full-page load's core: the task-list region and the footer, both as
/// the page's direct content, neither out of band.
pub fn index(state: &State) -> (r: Vec<Fragment>)
    ensures
        frag_views(r@) == seq![list_frag(state@, false), footer_frag(state@, false)],
{
    let lf = list_fragment(state, false);
    let ff = footer_fragment(state, false);
    let mut r: Vec<Fragment> = Vec::new();
    r.push(lf);
    r.push(ff);
    proof {
        assert(frag_views(r@) =~= seq![list_frag(state@, false), footer_frag(state@, false)]);
    }
    r
}

/// Select a filter: only the filter changes, and the response re-renders the
/// list under it, with the footer out of band (its selection highlight
/// changed even though the counts did not).
pub fn select_filter(state: &mut State, filter: Filter) -> (r: Vec<Fragment>)
    requires
        state_wf(old(state)@),
    ensures
        final(state)@ == select_effect(old(state)@, filter),
        state_wf(final(state)@),
        frag_views(r@) == seq![list_frag(final(state)@, false), footer_frag(final(state)@, true)],
{
    state.filter = filter;
    proof {
        assert(state@ =~= select_effect(old(state)@, filter));
    }
    let lf = list_fragment(state, false);
    let ff = footer_fragment(state, true);
    let mut r: Vec<Fragment> = Vec::new();
    r.push(lf);
    r.push(ff);
    proof {
        assert(frag_views(r@) =~= seq![
            list_frag(state@, false),
            footer_frag(state@, true),
        ]);
    }
    r
}

/// Remove every completed task. The response re-renders the list and, out of
/// band, the footer (the completed count fell to zero).
pub fn clear_completed(state: &mut State) -> (r: Vec<Fragment>)
    requires
        state_wf(old(state)@),
    ensures
        final(state)@ == clear_effect(old(state)@),
        state_wf(final(state)@),
        frag_views(r@) == seq![list_frag(final(state)@, false), footer_frag(final(state)@, true)],
{
    broadcast use crate::todos::lemma_views_of_push;

    let ghost all = old(state)@.todos;
    let mut kept: Vec<Todo> = Vec::new();
    proof {
        assert(all.take(0) =~= Seq::<TodoView>::empty());
        assert(views_of(kept@) =~= visible_of(all.take(0), Filter::Active));
    }
    let n = state.todos.len();
    let mut i: usize = 0;
    while i < n
        invariant
            i <= n,
            n == state.todos.len(),
            all == state@.todos,
            views_of(kept@) == visible_of(all.take(i as int), Filter::Active),
        decreases n - i,
    {
        proof {
            assert(all.take(i as int + 1).drop_last() =~= all.take(i as int));
            assert(all.take(i as int + 1).last() == all[i as int]);
        }
        let t = &state.todos[i];
        proof {
            assert(t@ == all[i as int]);
        }
        if !t.completed {
            kept.push(t.clone());
        }
        i += 1;
    }
    proof {
        assert(all.take(n as int) =~= all);
    }
    state.todos = kept;
    proof {
        assert(state@ =~= clear_effect(old(state)@));
        lemma_visible_subseq(all, Filter::Active);
        assert(ids_distinct(all));
        assert(ids_bounded(all, old(state)@.next_id));
        lemma_subseq_preserves_ids(visible_of(all, Filter::Active), all, old(state)@.next_id);
    }
    let lf = list_fragment(state, false);
    let ff = footer_fragment(state, true);
    let mut r: Vec<Fragment> = Vec::new();
    r.push(lf);
    r.push(ff);
    proof {
        assert(frag_views(r@) =~= seq![
            list_frag(state@, false),
            footer_frag(state@, true),
        ]);
    }
    r
}

/// Delete the task bearing the id; a no-op when no task bears it, so a
/// repeated delete is harmless. The response carries no primary fragment —
/// the item's removal needs no markup — only the footer, out of band.
pub fn delete_todo(state: &mut State, id: u64) -> (r: Vec<Fragment>)
    requires
        state_wf(old(state)@),
    ensures
        final(state)@ == delete_effect(old(state)@, id),
        state_wf(final(state)@),
        frag_views(r@) == seq![footer_frag(final(state)@, true)],
{
    broadcast use crate::todos::lemma_views_of_push;

    let ghost all = old(state)@.todos;
    let mut kept: Vec<Todo> = Vec::new();
    proof {
        assert(all.take(0) =~= Seq::<TodoView>::empty());
        assert(views_of(kept@) =~= remove_id(all.take(0), id));
    }
    let n = state.todos.len();
    let mut i: usize = 0;
    while i < n
        invariant
            i <= n,
            n == state.todos.len(),
            all == state@.todos,
            views_of(kept@) == remove_id(all.take(i as int), id),
        decreases n - i,
    {
        proof {
            assert(all.take(i as int + 1).drop_last() =~= all.take(i as int));
            assert(all.take(i as int + 1).last() == all[i as int]);
        }
        let t = &state.todos[i];
        proof {
            assert(t@ == all[i as int]);
        }
        if t.id != id {
            kept.push(t.clone());
        }
        i += 1;
    }
    proof {
        assert(all.take(n as int) =~= all);
    }
    state.todos = kept;
    proof {
        assert(state@ =~= delete_effect(old(state)@, id));
        lemma_remove_id_subseq(all, id);
        assert(ids_distinct(all));
        assert(ids_bounded(all, old(state)@.next_id));
        lemma_subseq_preserves_ids(remove_id(all, id), all, old(state)@.next_id);
    }
    let ff = footer_fragment(state, true);
    let mut r: Vec<Fragment> = Vec::new();
    r.push(ff);
    proof {
        assert(frag_views(r@) =~= seq![footer_frag(state@, true)]);
    }
    r
}

/// Set every task completed when any is still active, otherwise set every
/// task active; ids, descriptions and order are untouched. The response
/// re-renders the list, with the footer out of band.
pub fn toggle_todos(state: &mut State) -> (r: Vec<Fragment>)
    requires
        state_wf(old(state)@),
    ensures
        final(state)@ == toggle_effect(old(state)@),
        state_wf(final(state)@),
        frag_views(r@) == seq![list_frag(final(state)@, false), footer_frag(final(state)@, true)],
{
    broadcast use crate::todos::lemma_views_of_push;

    let ghost all = old(state)@.todos;
    let target = !all_completed(state);
    let mut flipped: Vec<Todo> = Vec::new();
    proof {
        assert(views_of(flipped@) =~= set_all(all, target).take(0));
    }
    let n = state.todos.len();
    let mut i: usize = 0;
    while i < n
        invariant
            i <= n,
            n == state.todos.len(),
            all == state@.todos,
            target == !all_completed_of(all),
            views_of(flipped@) == set_all(all, target).take(i as int),
        decreases n - i,
    {
        let t = &state.todos[i];
        proof {
            assert(t@ == all[i as int]);
        }
        let new_item = Todo { completed: target, description: t.description.clone(), id: t.id };
        proof {
            assert(new_item@ == set_all(all, target)[i as int]);
        }
        let ghost fl0 = flipped@;
        let ghost ni = new_item;
        flipped.push(new_item);
        proof {
            crate::todos::lemma_views_of_push(fl0, ni);
            assert(views_of(flipped@) == views_of(fl0).push(ni@));
            assert(views_of(flipped@) =~= set_all(all, target).take(i as int + 1));
        }
        i += 1;
    }
    proof {
        assert(set_all(all, target).take(n as int) =~= set_all(all, target));
    }
    state.todos = flipped;
    proof {
        assert(state@ =~= toggle_effect(old(state)@));
        assert forall|i2: int, j2: int|
            0 <= i2 < j2 < state@.todos.len() implies state@.todos[i2].id != state@.todos[j2].id by {
            assert(all[i2].id != all[j2].id);
        }
        assert forall|i2: int|
            0 <= i2 < state@.todos.len() implies (#[trigger] state@.todos[i2]).id
            < state@.next_id by {
            assert(all[i2].id < old(state)@.next_id);
        }
    }
    let lf = list_fragment(state, false);
    let ff = footer_fragment(state, true);
    let mut r: Vec<Fragment> = Vec::new();
    r.push(lf);
    r.push(ff);
    proof {
        assert(frag_views(r@) =~= seq![
            list_frag(state@, false),
            footer_frag(state@, true),
        ]);
    }
    r
}

/// Append a new task with the given description and a fresh id, not
/// completed. An empty description is rejected before any state change. The
/// primary fragment follows the client's hint: when the list region showed
/// the empty-list placeholder, the whole list is re-rendered; otherwise only
/// the new item plus a fresh trailing placeholder is sent, to be inserted at
/// the old placeholder. The footer comes out of band either way.
pub fn add_todo(state: &mut State, description: String, placeholder: TodoPlaceholder) -> (r:
    Result<Vec<Fragment>, ValidationError>)
    requires
        state_wf(old(state)@),
        old(state)@.next_id < u64::MAX,
    ensures
        state_wf(final(state)@),
        (r matches Err(_)) <==> description@.len() == 0,
        r matches Err(e) ==> e == ValidationError::EmptyDescription && final(state)@ == old(
            state,
        )@,
        r matches Ok(frags) ==> final(state)@ == add_effect(old(state)@, description@)
            && frag_views(frags@) == (match placeholder {
            TodoPlaceholder::FullPayload => seq![
                list_frag(final(state)@, false),
                footer_frag(final(state)@, true),
            ],
            TodoPlaceholder::Extend => seq![
                FragmentView {
                    region: Region::NextTodo,
                    mode: SwapMode::AppendThenReplacePlaceholder,
                    oob: false,
                    body: todo_html(
                        TodoView {
                            completed: false,
                            description: description@,
                            id: old(state)@.next_id,
                        },
                    ) + placeholder_html(TodoPlaceholder::Extend),
                },
                footer_frag(final(state)@, true),
            ],
        }),
{
    broadcast use crate::todos::lemma_views_of_push;

    if description.as_str().unicode_len() == 0 {
        return Err(ValidationError::EmptyDescription);
    }
    let id = state.get_id();
    let newt = Todo { completed: false, description, id };
    proof {
        assert forall|i2: int, j2: int|
            0 <= i2 < j2 < old(state)@.todos.push(newt@).len() implies old(state)@.todos.push(
            newt@,
        )[i2].id != old(state)@.todos.push(newt@)[j2].id by {
            if j2 < old(state)@.todos.len() {
                assert(old(state)@.todos[i2].id != old(state)@.todos[j2].id);
            } else {
                assert(old(state)@.todos[i2].id < old(state)@.next_id);
            }
        }
    }
    match placeholder {
        TodoPlaceholder::Extend => {
            let mut body = newt.render();
            let ph = (TodoPlaceholder::Extend).render();
            body.append(ph.as_str());
            let tf = Fragment {
                region: Region::NextTodo,
                mode: SwapMode::AppendThenReplacePlaceholder,
                oob: false,
                body,
            };
            state.todos.push(newt);
            proof {
                assert(state@ =~= add_effect(old(state)@, newt@.description));
            }
            let ff = footer_fragment(state, true);
            let mut r: Vec<Fragment> = Vec::new();
            r.push(tf);
            r.push(ff);
            proof {
                assert(frag_views(r@) =~= seq![tf@, footer_frag(state@, true)]);
            }
            Ok(r)
        },
        TodoPlaceholder::FullPayload => {
            state.todos.push(newt);
            proof {
                assert(state@ =~= add_effect(old(state)@, newt@.description));
            }
            let lf = list_fragment(state, false);
            let ff = footer_fragment(state, true);
            let mut r: Vec<Fragment> = Vec::new();
            r.push(lf);
            r.push(ff);
            proof {
                assert(frag_views(r@) =~= seq![
                    list_frag(state@, false),
                    footer_frag(state@, true),
                ]);
            }
            Ok(r)
        },
    }
}

/// The position of the first task bearing the id, if any does.
fn find_index(todos: &Vec<Todo>, id: u64) -> (r: Option<usize>)
    ensures
        match r {
            Some(i) => i < todos@.len() && views_of(todos@)[i as int].id == id && forall|j: int|
                0 <= j < i ==> views_of(todos@)[j].id != id,
            None => !has_id(views_of(todos@), id),
        },
{
    let n = todos.len();
    let mut i: usize = 0;
    while i < n
        invariant
            i <= n,
            n == todos@.len(),
            forall|j: int| 0 <= j < i ==> views_of(todos@)[j].id != id,
        decreases n - i,
    {
        if todos[i].id == id {
            return Some(i);
        }
        i += 1;
    }
    None
}

/// Patch the task bearing the id: set its completion flag and/or replace its
/// description, as given. A present-but-empty description is rejected before
/// any state change; an id no task bears makes the patch a no-op with an
/// empty response (the benign outcome of a stale client view). Otherwise the
/// response carries the re-rendered item and, out of band, the footer.
pub fn patch_todo(
    state: &mut State,
    id: u64,
    completed: Option<bool>,
    desc: Option<String>,
) -> (r: Result<Vec<Fragment>, ValidationError>)
    requires
        state_wf(old(state)@),
    ensures
        state_wf(final(state)@),
        (r matches Err(_)) <==> blank_desc(desc),
        r matches Err(e) ==> e == ValidationError::EmptyDescription && final(state)@ == old(
            state,
        )@,
        r matches Ok(frags) ==> final(state)@ == patch_effect(
            old(state)@,
            id,
            completed,
            opt_view(desc),
        ) && (if has_id(old(state)@.todos, id) {
            frag_views(frags@) == seq![
                FragmentView {
                    region: Region::Task(id),
                    mode: SwapMode::ReplaceTarget,
                    oob: false,
                    body: todo_html(
                        patched_task(
                            old(state)@.todos[index_of_id(old(state)@.todos, id)],
                            completed,
                            opt_view(desc),
                        ),
                    ),
                },
                footer_frag(final(state)@, true),
            ]
        } else {
            frag_views(frags@) == Seq::<FragmentView>::empty()
        }),
{
    broadcast use crate::todos::lemma_views_of_update;

    let blank = match &desc {
        Some(d) => d.as_str().unicode_len() == 0,
        None => false,
    };
    if blank {
        return Err(ValidationError::EmptyDescription);
    }
    match find_index(&state.todos, id) {
        None => {
            let empty: Vec<Fragment> = Vec::new();
            proof {
                assert(frag_views(empty@) =~= Seq::<FragmentView>::empty());
            }
            Ok(empty)
        },
        Some(i) => {
            proof {
                lemma_index_of_id_unique(state@.todos, id, i as int);
            }
            let old_completed = state.todos[i].completed;
            let old_desc = state.todos[i].description.clone();
            let new_completed = match completed {
                Some(b) => b,
                None => old_completed,
            };
            let new_desc = match desc {
                Some(d) => d,
                None => old_desc,
            };
            let newt = Todo { completed: new_completed, description: new_desc, id };
            let body = newt.render();
            let ghost before = state.todos@;
            state.todos.remove(i);
            state.todos.insert(i, newt);
            proof {
                assert(state.todos@ =~= before.update(i as int, newt));
                assert(state@ =~= patch_effect(old(state)@, id, completed, opt_view(desc)));
                assert forall|i2: int, j2: int|
                    0 <= i2 < j2 < state@.todos.len() implies state@.todos[i2].id
                    != state@.todos[j2].id by {
                    assert(old(state)@.todos[i2].id != old(state)@.todos[j2].id);
                }
                assert forall|i2: int|
                    0 <= i2 < state@.todos.len() implies (#[trigger] state@.todos[i2]).id
                    < state@.next_id by {
                    assert(old(state)@.todos[i2].id < old(state)@.next_id);
                }
            }
            let tf = Fragment {
                region: Region::Task(id),
                mode: SwapMode::ReplaceTarget,
                oob: false,
                body,
            };
            let ff = footer_fragment(state, true);
            let mut r: Vec<Fragment> = Vec::new();
            r.push(tf);
            r.push(ff);
            proof {
                assert(frag_views(r@) =~= seq![tf@, footer_frag(state@, true)]);
            }
            Ok(r)
        },
    }
}

} // verus!
