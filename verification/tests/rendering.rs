use todomvc::filter::Filter;
use todomvc::footer::Footer;
use todomvc::state::State;
use todomvc::text::escape_str;
use todomvc::text::str_eq;
use todomvc::text::u64_to_string;
use todomvc::todos::List;
use todomvc::todos::Todo;
use todomvc::todos::TodoPlaceholder;

#[test]
fn decimal_rendering_exact() {
    assert_eq!(u64_to_string(0), "0");
    assert_eq!(u64_to_string(7), "7");
    assert_eq!(u64_to_string(10), "10");
    assert_eq!(u64_to_string(1234567890), "1234567890");
    assert_eq!(u64_to_string(u64::MAX), "18446744073709551615");
}

#[test]
fn escaping_exact() {
    assert_eq!(escape_str(""), "");
    assert_eq!(escape_str("plain text"), "plain text");
    assert_eq!(escape_str("a&b<c>d\"e"), "a&amp;b&lt;c&gt;d&quot;e");
    assert_eq!(escape_str("<script>"), "&lt;script&gt;");
    assert_eq!(escape_str("caf\u{e9} \u{2713}"), "caf\u{e9} \u{2713}");
}

#[test]
fn str_eq_agrees_with_equality() {
    assert!(str_eq("", ""));
    assert!(str_eq("abc", "abc"));
    assert!(!str_eq("abc", "abd"));
    assert!(!str_eq("abc", "ab"));
    assert!(str_eq("caf\u{e9}", "caf\u{e9}"));
}

#[test]
fn placeholder_markup_exact() {
    assert_eq!(
        TodoPlaceholder::Extend.render(),
        "<input type=\"hidden\" name=\"next-todo\" value=\"Extend\">"
    );
    assert_eq!(
        TodoPlaceholder::FullPayload.render(),
        "<input id=\"todo-list\" hx-swap-oob=\"true\" type=\"hidden\" name=\"next-todo\" value=\"FullPayload\">"
    );
}

#[test]
fn todo_markup_exact() {
    let t = Todo { completed: false, description: "a<b".to_string(), id: 3 };
    let expected = String::new()
        + "<li id=\"todo-3\""
        + " x-data=\"{&quot;editing&quot;:false,&quot;description&quot;:&quot;a&lt;b&quot;}\""
        + " x-bind:class=\"editing &amp;&amp; &quot;editing&quot;\""
        + " x-on:dblclick=\"editing = !editing; $nextTick(() =&gt; $refs['edit-todo-input'].focus())\""
        + " hx-swap=\"outerHTML\" hx-target=\"#todo-3\">"
        + "<div class=\"view\" x-show=\"!editing\">"
        + "<input class=\"toggle\" type=\"checkbox\" hx-patch=\"/todo/3\" hx-include=\"next input[name='completed']\">"
        + "<label x-text=\"description\">a&lt;b</label>"
        + "<button class=\"destroy\" hx-delete=\"/todo/3\"></button>"
        + "</div>"
        + "<input type=\"hidden\" name=\"completed\" value=\"false\">"
        + "<template x-if=\"editing\"><div class=\"input-container\">"
        + "<input class=\"edit\" id=\"edit-todo-input\" x-ref=\"edit-todo-input\" hx-patch=\"/todo/3\" name=\"desc\" x-model=\"description\">"
        + "<label class=\"visually-hidden\" for=\"edit-todo-input\">Edit Todo Input</label>"
        + "</div></template></li>";
    assert_eq!(t.render(), expected);
}

#[test]
fn completed_todo_markup_flags() {
    let t = Todo { completed: true, description: "x".to_string(), id: 1 };
    let html = t.render();
    assert!(html.starts_with("<li class=\"completed\" id=\"todo-1\""));
    assert!(html.contains("type=\"checkbox\" checked "));
    assert!(html.contains("name=\"completed\" value=\"true\""));
}

#[test]
fn footer_markup_exact() {
    let f = Footer {
        current_filter: Filter::All,
        num_active: 2,
        num_completed: 1,
        oob: true,
    };
    let expected = String::new()
        + "<footer class=\"footer\" id=\"footer\" hx-swap-oob=\"true\""
        + " hx-target=\"footer.footer\" hx-swap=\"outerHTML\">"
        + "<span class=\"todo-count\"><strong>2</strong> items left</span>"
        + "<ul class=\"filters\" hx-include=\"next input\">"
        + "<li><a class=\"selected\" hx-post=\"/select\">All</a>"
        + "<input type=\"hidden\" name=\"filter\" value=\"All\"></li>"
        + "<li><a hx-post=\"/select\">Active</a>"
        + "<input type=\"hidden\" name=\"filter\" value=\"Active\"></li>"
        + "<li><a hx-post=\"/select\">Completed</a>"
        + "<input type=\"hidden\" name=\"filter\" value=\"Completed\"></li>"
        + "</ul>"
        + "<button class=\"clear-completed\" hx-post=\"/clear-completed\">Clear completed</button>"
        + "</footer>";
    assert_eq!(f.render(), expected);
}

#[test]
fn footer_singular_count_and_no_clear_button() {
    let f = Footer {
        current_filter: Filter::Active,
        num_active: 1,
        num_completed: 0,
        oob: false,
    };
    let html = f.render();
    assert!(html.contains("<strong>1</strong> item left"));
    assert!(!html.contains("hx-swap-oob"));
    assert!(!html.contains("clear-completed"));
    assert!(html.contains("<li><a class=\"selected\" hx-post=\"/select\">Active</a>"));
}

#[test]
fn empty_list_renders_placeholder_only() {
    let state = State::default();
    let list = List { state: &state, oob: false };
    assert_eq!(
        list.render(),
        "<input id=\"todo-list\" hx-swap-oob=\"true\" type=\"hidden\" name=\"next-todo\" value=\"FullPayload\">"
    );
}

#[test]
fn nonempty_list_renders_visible_items_and_anchor() {
    let state = State {
        todos: vec![
            Todo { completed: false, description: "a".to_string(), id: 1 },
            Todo { completed: true, description: "b".to_string(), id: 2 },
        ],
        filter: Filter::Active,
        next_id: 3,
    };
    let list = List::from_state(&state);
    let html = list.render();
    assert!(html.starts_with("<main class=\"main\" id=\"todo-list\" hx-swap-oob=\"true\">"));
    // the active filter hides the completed task without touching it
    assert!(html.contains("id=\"todo-1\""));
    assert!(!html.contains("id=\"todo-2\""));
    // not all tasks are completed, so the toggle-all box is unchecked
    assert!(html.contains("type=\"checkbox\" hx-post=\"/toggle-todos\""));
    assert!(html.ends_with(
        "<input type=\"hidden\" name=\"next-todo\" value=\"Extend\"></ul></main>"
    ));
}

#[test]
fn list_toggle_all_checked_when_all_completed() {
    let state = State {
        todos: vec![Todo { completed: true, description: "a".to_string(), id: 1 }],
        filter: Filter::All,
        next_id: 2,
    };
    let html = List { state: &state, oob: false }.render();
    assert!(html.contains("type=\"checkbox\" checked hx-post=\"/toggle-todos\""));
    assert!(!html.contains("hx-swap-oob"));
}
