use vstd::prelude::*;

use crate::filter::Filter;
use crate::todos::Todo;
use crate::todos::TodoView;
use crate::todos::views_of;

verus! {

/// One visitor's whole session state: the task list in insertion order, the
/// active filter, and the next identifier to hand out. Checked out of the
/// session store at the start of a request and checked back in at the end.
pub struct State {
    pub todos: Vec<Todo>,
    pub filter: Filter,
    pub next_id: u64,
}

/// The mathematical content of a session state.
#[verifier::ext_equal]
pub struct StateView {
    pub todos: Seq<TodoView>,
    pub filter: Filter,
    pub next_id: u64,
}

impl View for State {
    type V = StateView;

    open spec fn view(&self) -> StateView {
        StateView { todos: views_of(self.todos@), filter: self.filter, next_id: self.next_id }
    }
}

/// Well-formedness of a session state: identifiers start at 1, every task's
/// identifier was handed out before `next_id`, and no two tasks share one.
pub open spec fn state_wf(s: StateView) -> bool {
    &&& 1 <= s.next_id
    &&& forall|i: int| 0 <= i < s.todos.len() ==> (#[trigger] s.todos[i]).id < s.next_id
    &&& forall|i: int, j: int|
        0 <= i < j < s.todos.len() ==> s.todos[i].id != s.todos[j].id
}

impl Default for State {
    /// A session with no prior state: no tasks, filter `All`, identifiers
    /// starting at 1.
    fn default() -> (s: Self)
        ensures
            s@.todos == Seq::<TodoView>::empty(),
            s@.filter == Filter::All,
            s@.next_id == 1,
            state_wf(s@),
    {
        let s = State { todos: Vec::new(), filter: Filter::All, next_id: 1 };
        proof {
            assert(s@.todos =~= Seq::<TodoView>::empty());
        }
        s
    }
}

impl State {
    /// Hand out a fresh task identifier: the current `next_id`, which is then
    /// advanced so the same identifier is never handed out twice within the
    /// session.
    pub fn get_id(&mut self) -> (id: u64)
        requires
            old(self).next_id < u64::MAX,
        ensures
            id == old(self)@.next_id,
            final(self)@.next_id == old(self)@.next_id + 1,
            final(self)@.todos == old(self)@.todos,
            final(self)@.filter == old(self)@.filter,
    {
        let id = self.next_id;
        self.next_id = self.next_id + 1;
        id
    }
}

} // verus!
