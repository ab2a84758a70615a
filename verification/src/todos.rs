use vstd::prelude::*;
use vstd::string::StringExecFns;

use crate::state::State;
use crate::text::dec_of;
use crate::text::escape_html;
use crate::text::escape_str;
use crate::text::u64_to_string;
use crate::views::all_completed;
use crate::views::all_completed_of;
use crate::views::visible_of;
use crate::views::visible_tasks;

verus! {

/// The hint a client echoes back with an "add" request: whether the list
/// region currently shows only the empty-list placeholder (`FullPayload`:
/// the response must re-render the whole list) or a trailing anchor
/// (`Extend`: the response may append the new task in place).
#[derive(Clone, Copy, Debug, PartialEq, Eq, Structural)]
pub enum TodoPlaceholder {
    Extend,
    FullPayload,
}

/// One task: a completion flag, a free-text description, and an identifier
/// assigned once at creation and immutable thereafter.
#[derive(Debug)]
pub struct Todo {
    pub completed: bool,
    pub description: String,
    pub id: u64,
}

/// The mathematical content of a task.
#[verifier::ext_equal]
pub struct TodoView {
    pub completed: bool,
    pub description: Seq<char>,
    pub id: u64,
}

impl View for Todo {
    type V = TodoView;

    open spec fn view(&self) -> TodoView {
        TodoView { completed: self.completed, description: self.description@, id: self.id }
    }
}

impl Clone for Todo {
    /// Cloning keeps all three fields.
    fn clone(&self) -> (r: Self)
        ensures
            r@ == self@,
    {
        Todo { completed: self.completed, description: self.description.clone(), id: self.id }
    }
}

/// The sequence of task views behind a sequence of tasks.
pub open spec fn views_of(ts: Seq<Todo>) -> Seq<TodoView> {
    ts.map_values(|t: Todo| t@)
}

pub broadcast proof fn lemma_views_of_push(ts: Seq<Todo>, t: Todo)
    ensures
        #[trigger] views_of(ts.push(t)) == views_of(ts).push(t@),
{
    assert(views_of(ts.push(t)) =~= views_of(ts).push(t@));
}

pub broadcast proof fn lemma_views_of_update(ts: Seq<Todo>, i: int, t: Todo)
    requires
        0 <= i < ts.len(),
    ensures
        #[trigger] views_of(ts.update(i, t)) == views_of(ts).update(i, t@),
{
    assert(views_of(ts.update(i, t)) =~= views_of(ts).update(i, t@));
}

/// The placeholder marker's HTML. The `Extend` form is the invisible anchor
/// that ends a rendered list; the `FullPayload` form stands in for the whole
/// list region while the collection is empty and asks, out of band, to be
/// swapped in as that region.
pub open spec fn placeholder_html(p: TodoPlaceholder) -> Seq<char> {
    match p {
        TodoPlaceholder::Extend => "<input type=\"hidden\" name=\"next-todo\" value=\"Extend\">"@,
        TodoPlaceholder::FullPayload => "<input id=\"todo-list\" hx-swap-oob=\"true\" type=\"hidden\" name=\"next-todo\" value=\"FullPayload\">"@,
    }
}

impl TodoPlaceholder {
    /// Render the placeholder marker.
    pub fn render(&self) -> (r: String)
        ensures
            r@ == placeholder_html(*self),
    {
        match self {
            TodoPlaceholder::Extend => String::from_str(
                "<input type=\"hidden\" name=\"next-todo\" value=\"Extend\">",
            ),
            TodoPlaceholder::FullPayload => String::from_str(
                "<input id=\"todo-list\" hx-swap-oob=\"true\" type=\"hidden\" name=\"next-todo\" value=\"FullPayload\">",
            ),
        }
    }
}

/// One task as a self-contained list item, keyed by its id. The client-side
/// "editing" flag always starts false: it is ephemeral presentation state the
/// server never tracks. The item exposes the toggle, delete and edit
/// affordances; the description is escaped wherever it is written.
pub open spec fn todo_html(t: TodoView) -> Seq<char> {
    (if t.completed {
        "<li class=\"completed\" id=\"todo-"@
    } else {
        "<li id=\"todo-"@
    }) + dec_of(t.id as nat)
        + "\" x-data=\"{&quot;editing&quot;:false,&quot;description&quot;:&quot;"@
        + escape_html(t.description)
        + "&quot;}\" x-bind:class=\"editing &amp;&amp; &quot;editing&quot;\" x-on:dblclick=\"editing = !editing; $nextTick(() =&gt; $refs['edit-todo-input'].focus())\" hx-swap=\"outerHTML\" hx-target=\"#todo-"@
        + dec_of(t.id as nat)
        + "\"><div class=\"view\" x-show=\"!editing\"><input class=\"toggle\" type=\"checkbox\""@
        + (if t.completed {
        " checked"@
    } else {
        ""@
    }) + " hx-patch=\"/todo/"@ + dec_of(t.id as nat)
        + "\" hx-include=\"next input[name='completed']\"><label x-text=\"description\">"@
        + escape_html(t.description)
        + "</label><button class=\"destroy\" hx-delete=\"/todo/"@
        + dec_of(t.id as nat)
        + "\"></button></div><input type=\"hidden\" name=\"completed\" value=\""@
        + (if t.completed {
        "true"@
    } else {
        "false"@
    })
        + "\"><template x-if=\"editing\"><div class=\"input-container\"><input class=\"edit\" id=\"edit-todo-input\" x-ref=\"edit-todo-input\" hx-patch=\"/todo/"@
        + dec_of(t.id as nat)
        + "\" name=\"desc\" x-model=\"description\"><label class=\"visually-hidden\" for=\"edit-todo-input\">Edit Todo Input</label></div></template></li>"@
}

impl Todo {
    /// Render the task as its list-item fragment body.
    pub fn render(&self) -> (r: String)
        ensures
            r@ == todo_html(self@),
    {
        let id = u64_to_string(self.id);
        let esc = escape_str(self.description.as_str());
        let mut r = String::from_str(
            if self.completed {
                "<li class=\"completed\" id=\"todo-"
            } else {
                "<li id=\"todo-"
            },
        );
        r.append(id.as_str());
        r.append("\" x-data=\"{&quot;editing&quot;:false,&quot;description&quot;:&quot;");
        r.append(esc.as_str());
        r.append(
            "&quot;}\" x-bind:class=\"editing &amp;&amp; &quot;editing&quot;\" x-on:dblclick=\"editing = !editing; $nextTick(() =&gt; $refs['edit-todo-input'].focus())\" hx-swap=\"outerHTML\" hx-target=\"#todo-",
        );
        r.append(id.as_str());
        r.append("\"><div class=\"view\" x-show=\"!editing\"><input class=\"toggle\" type=\"checkbox\"");
        r.append(if self.completed { " checked" } else { "" });
        r.append(" hx-patch=\"/todo/");
        r.append(id.as_str());
        r.append("\" hx-include=\"next input[name='completed']\"><label x-text=\"description\">");
        r.append(esc.as_str());
        r.append("</label><button class=\"destroy\" hx-delete=\"/todo/");
        r.append(id.as_str());
        r.append("\"></button></div><input type=\"hidden\" name=\"completed\" value=\"");
        r.append(if self.completed { "true" } else { "false" });
        r.append(
            "\"><template x-if=\"editing\"><div class=\"input-container\"><input class=\"edit\" id=\"edit-todo-input\" x-ref=\"edit-todo-input\" hx-patch=\"/todo/",
        );
        r.append(id.as_str());
        r.append(
            "\" name=\"desc\" x-model=\"description\"><label class=\"visually-hidden\" for=\"edit-todo-input\">Edit Todo Input</label></div></template></li>",
        );
        r
    }
}

/// The visible tasks in order, each rendered, concatenated.
pub open spec fn tasks_html(ts: Seq<TodoView>) -> Seq<char>
    decreases ts.len(),
{
    if ts.len() == 0 {
        Seq::empty()
    } else {
        tasks_html(ts.drop_last()) + todo_html(ts.last())
    }
}

/// The task-list region: the empty-collection placeholder when there is no
/// task at all, otherwise the toggle-all control, the tasks the current
/// filter lists, and the trailing anchor placeholder. The toggle-all control
/// is checked when the whole, unfiltered collection is non-empty and all
/// completed.
pub open spec fn list_html(s: crate::state::StateView, oob: bool) -> Seq<char> {
    if s.todos.len() == 0 {
        placeholder_html(TodoPlaceholder::FullPayload)
    } else {
        "<main class=\"main\" id=\"todo-list\""@ + (if oob {
            " hx-swap-oob=\"true\""@
        } else {
            ""@
        })
            + "><div class=\"toggle-all-container\"><input class=\"toggle-all\" id=\"toggle-all\" type=\"checkbox\""@
            + (if all_completed_of(s.todos) {
            " checked"@
        } else {
            ""@
        })
            + " hx-post=\"/toggle-todos\"><label for=\"toggle-all\">Mark all as complete</label></div><ul class=\"todo-list\">"@
            + tasks_html(visible_of(s.todos, s.filter)) + placeholder_html(TodoPlaceholder::Extend)
            + "</ul></main>"@
    }
}

/// The task-list region, rendered from a session state; `oob` says whether
/// the fragment asks to be swapped out of band.
pub struct List<'a> {
    pub state: &'a State,
    pub oob: bool,
}

impl<'a> List<'a> {
    /// The list region as an out-of-band fragment, as mutations emit it.
    pub fn from_state(state: &'a State) -> (l: List<'a>)
        ensures
            l.state == state,
            l.oob == true,
    {
        List { state, oob: true }
    }

    /// Render the task-list region.
    pub fn render(&self) -> (r: String)
        ensures
            r@ == list_html(self.state@, self.oob),
    {
        if self.state.todos.len() == 0 {
            return (TodoPlaceholder::FullPayload).render();
        }
        let vis = visible_tasks(self.state);
        let mut body = String::new();
        proof {
            assert(views_of(vis@).take(0) =~= Seq::<TodoView>::empty());
            assert(body@ =~= tasks_html(views_of(vis@).take(0)));
        }
        let n = vis.len();
        let mut i: usize = 0;
        while i < n
            invariant
                i <= n,
                n == vis.len(),
                views_of(vis@) == visible_of(self.state@.todos, self.state@.filter),
                body@ == tasks_html(views_of(vis@).take(i as int)),
            decreases n - i,
        {
            proof {
                let vs = views_of(vis@);
                assert(vs.take(i as int + 1).drop_last() =~= vs.take(i as int));
                assert(vs.take(i as int + 1).last() == vs[i as int]);
            }
            let t_html = vis[i].render();
            body.append(t_html.as_str());
            i += 1;
        }
        proof {
            assert(views_of(vis@).take(n as int) =~= views_of(vis@));
        }
        let all_done = all_completed(self.state);
        let mut r = String::from_str("<main class=\"main\" id=\"todo-list\"");
        r.append(if self.oob { " hx-swap-oob=\"true\"" } else { "" });
        r.append(
            "><div class=\"toggle-all-container\"><input class=\"toggle-all\" id=\"toggle-all\" type=\"checkbox\"",
        );
        r.append(if all_done { " checked" } else { "" });
        r.append(
            " hx-post=\"/toggle-todos\"><label for=\"toggle-all\">Mark all as complete</label></div><ul class=\"todo-list\">",
        );
        r.append(body.as_str());
        let ph = (TodoPlaceholder::Extend).render();
        r.append(ph.as_str());
        r.append("</ul></main>");
        r
    }
}

} // verus!
