use todomvc::errors::ValidationError;
use todomvc::filter::Filter;
use todomvc::fragment::Region;
use todomvc::fragment::SwapMode;
use todomvc::fragment::serialize_fragments;
use todomvc::handlers::add_todo;
use todomvc::handlers::clear_completed;
use todomvc::handlers::delete_todo;
use todomvc::handlers::index;
use todomvc::handlers::patch_todo;
use todomvc::handlers::select_filter;
use todomvc::handlers::toggle_todos;
use todomvc::state::State;
use todomvc::todos::TodoPlaceholder;
use todomvc::views::all_completed;
use todomvc::views::counts;
use todomvc::views::visible_tasks;

fn add(state: &mut State, text: &str) {
    let hint = if state.todos.is_empty() {
        TodoPlaceholder::FullPayload
    } else {
        TodoPlaceholder::Extend
    };
    add_todo(state, text.to_string(), hint).expect("non-empty description");
}

#[test]
fn scenario_a_first_add_renders_full_list() {
    let mut state = State::default();
    let frags = add_todo(
        &mut state,
        "buy milk".to_string(),
        TodoPlaceholder::FullPayload,
    )
    .expect("non-empty description");

    assert_eq!(state.todos.len(), 1);
    assert_eq!(state.todos[0].id, 1);
    assert_eq!(state.todos[0].description, "buy milk");
    assert!(!state.todos[0].completed);

    assert_eq!(frags.len(), 2);
    assert_eq!(frags[0].region, Region::TaskList);
    assert_eq!(frags[0].mode, SwapMode::ReplaceTarget);
    assert!(!frags[0].oob);
    assert_eq!(frags[1].region, Region::Footer);
    assert!(frags[1].oob);
    assert!(frags[1].body.contains("<strong>1</strong> item left"));

    let (active, completed) = counts(&state);
    assert_eq!((active, completed), (1, 0));
}

#[test]
fn scenario_a_add_to_nonempty_list_appends() {
    let mut state = State::default();
    add(&mut state, "first");
    let frags = add_todo(&mut state, "second".to_string(), TodoPlaceholder::Extend)
        .expect("non-empty description");

    assert_eq!(frags.len(), 2);
    assert_eq!(frags[0].region, Region::NextTodo);
    assert_eq!(frags[0].mode, SwapMode::AppendThenReplacePlaceholder);
    assert!(!frags[0].oob);
    // the primary body is the new item followed by a fresh trailing anchor
    assert!(frags[0].body.starts_with("<li id=\"todo-2\""));
    assert!(frags[0]
        .body
        .ends_with("<input type=\"hidden\" name=\"next-todo\" value=\"Extend\">"));
    assert_eq!(frags[1].region, Region::Footer);
}

#[test]
fn scenario_b_active_filter_hides_completed() {
    let mut state = State::default();
    add(&mut state, "T1");
    add(&mut state, "T2");
    patch_todo(&mut state, 2, Some(true), None).expect("no description given");

    let frags = select_filter(&mut state, Filter::Active);
    assert_eq!(state.filter, Filter::Active);

    let visible = visible_tasks(&state);
    assert_eq!(visible.len(), 1);
    assert_eq!(visible[0].id, 1);
    assert_eq!(visible[0].description, "T1");

    let (active, completed) = counts(&state);
    assert_eq!((active, completed), (1, 1));

    assert_eq!(frags.len(), 2);
    assert_eq!(frags[0].region, Region::TaskList);
    assert!(!frags[0].oob);
    assert_eq!(frags[1].region, Region::Footer);
    assert!(frags[1].oob);
}

#[test]
fn scenario_c_toggle_all_twice() {
    let mut state = State::default();
    add(&mut state, "T1");
    add(&mut state, "T2");
    patch_todo(&mut state, 2, Some(true), None).expect("no description given");

    toggle_todos(&mut state);
    assert!(state.todos.iter().all(|t| t.completed));
    assert!(all_completed(&state));

    toggle_todos(&mut state);
    assert!(state.todos.iter().all(|t| !t.completed));
    assert!(!all_completed(&state));
}

#[test]
fn scenario_d_clear_completed() {
    let mut state = State::default();
    add(&mut state, "T1");
    add(&mut state, "T2");
    add(&mut state, "T3");
    patch_todo(&mut state, 2, Some(true), None).expect("no description given");
    patch_todo(&mut state, 3, Some(true), None).expect("no description given");

    let frags = clear_completed(&mut state);
    assert_eq!(state.todos.len(), 1);
    assert_eq!(state.todos[0].id, 1);
    assert_eq!(state.todos[0].description, "T1");

    let (_, completed) = counts(&state);
    assert_eq!(completed, 0);
    // with nothing completed, the footer offers no clear-completed affordance
    assert!(!frags[1].body.contains("clear-completed"));
}

#[test]
fn scenario_e_empty_edit_rejected() {
    let mut state = State::default();
    add(&mut state, "T1");

    let r = patch_todo(&mut state, 1, None, Some(String::new()));
    assert_eq!(r.unwrap_err(), ValidationError::EmptyDescription);
    assert_eq!(state.todos[0].description, "T1");
}

#[test]
fn empty_add_rejected() {
    let mut state = State::default();
    let r = add_todo(&mut state, String::new(), TodoPlaceholder::FullPayload);
    assert_eq!(r.unwrap_err(), ValidationError::EmptyDescription);
    assert!(state.todos.is_empty());
}

#[test]
fn ids_distinct_and_never_reused() {
    let mut state = State::default();
    add(&mut state, "a");
    add(&mut state, "b");
    add(&mut state, "c");
    delete_todo(&mut state, 2);
    add(&mut state, "d");

    let ids: Vec<u64> = state.todos.iter().map(|t| t.id).collect();
    assert_eq!(ids, vec![1, 3, 4]);
    for (i, t) in state.todos.iter().enumerate() {
        for u in state.todos.iter().skip(i + 1) {
            assert_ne!(t.id, u.id);
        }
    }
}

#[test]
fn counts_match_brute_force_after_mutations() {
    let mut state = State::default();
    add(&mut state, "a");
    add(&mut state, "b");
    add(&mut state, "c");
    patch_todo(&mut state, 2, Some(true), None).expect("no description given");
    delete_todo(&mut state, 1);

    let (active, completed) = counts(&state);
    let brute_active = state.todos.iter().filter(|t| !t.completed).count();
    let brute_completed = state.todos.iter().filter(|t| t.completed).count();
    assert_eq!(active, brute_active);
    assert_eq!(completed, brute_completed);
    assert_eq!(active + completed, state.todos.len());
}

#[test]
fn visible_all_is_insertion_order_despite_filter_changes() {
    let mut state = State::default();
    add(&mut state, "a");
    add(&mut state, "b");
    add(&mut state, "c");
    patch_todo(&mut state, 2, Some(true), None).expect("no description given");

    select_filter(&mut state, Filter::Completed);
    select_filter(&mut state, Filter::All);
    let visible: Vec<u64> = visible_tasks(&state).iter().map(|t| t.id).collect();
    assert_eq!(visible, vec![1, 2, 3]);

    select_filter(&mut state, Filter::Active);
    let active_ids: Vec<u64> = visible_tasks(&state).iter().map(|t| t.id).collect();
    assert_eq!(active_ids, vec![1, 3]);

    select_filter(&mut state, Filter::Completed);
    let completed_ids: Vec<u64> = visible_tasks(&state).iter().map(|t| t.id).collect();
    assert_eq!(completed_ids, vec![2]);
}

#[test]
fn all_completed_cases() {
    let mut state = State::default();
    assert!(!all_completed(&state));

    add(&mut state, "a");
    assert!(!all_completed(&state));

    patch_todo(&mut state, 1, Some(true), None).expect("no description given");
    assert!(all_completed(&state));

    add(&mut state, "b");
    assert!(!all_completed(&state));
}

#[test]
fn delete_absent_id_is_idempotent() {
    let mut state = State::default();
    add(&mut state, "a");
    let before: Vec<(u64, String, bool)> = state
        .todos
        .iter()
        .map(|t| (t.id, t.description.clone(), t.completed))
        .collect();

    let frags = delete_todo(&mut state, 99);
    let after: Vec<(u64, String, bool)> = state
        .todos
        .iter()
        .map(|t| (t.id, t.description.clone(), t.completed))
        .collect();
    assert_eq!(before, after);

    // still a well-formed response: the footer alone, no primary markup
    assert_eq!(frags.len(), 1);
    assert_eq!(frags[0].region, Region::Footer);
    let body = serialize_fragments(&frags);
    assert!(body.starts_with("<footer"));
}

#[test]
fn patch_absent_id_is_empty_response() {
    let mut state = State::default();
    add(&mut state, "a");
    let frags = patch_todo(&mut state, 42, Some(true), None).expect("patch of absent id is Ok");
    assert!(frags.is_empty());
    assert_eq!(serialize_fragments(&frags), "");
    assert!(!state.todos[0].completed);
}

#[test]
fn patch_sets_posted_value_directly() {
    // the client posts the intended new completion value; the handler sets
    // it as given rather than inverting the old one
    let mut state = State::default();
    add(&mut state, "a");
    patch_todo(&mut state, 1, Some(true), None).expect("no description given");
    assert!(state.todos[0].completed);
    patch_todo(&mut state, 1, Some(true), None).expect("no description given");
    assert!(state.todos[0].completed);
    patch_todo(&mut state, 1, Some(false), None).expect("no description given");
    assert!(!state.todos[0].completed);
}

#[test]
fn edit_replaces_description_only() {
    let mut state = State::default();
    add(&mut state, "old text");
    patch_todo(&mut state, 1, None, Some("new text".to_string())).expect("non-empty description");
    assert_eq!(state.todos[0].description, "new text");
    assert_eq!(state.todos[0].id, 1);
    assert!(!state.todos[0].completed);
}

#[test]
fn toggle_all_on_empty_list_is_noop() {
    let mut state = State::default();
    let frags = toggle_todos(&mut state);
    assert!(state.todos.is_empty());
    assert_eq!(frags.len(), 2);
}

#[test]
fn index_returns_list_and_footer_in_band() {
    let mut state = State::default();
    add(&mut state, "a");
    let frags = index(&state);
    assert_eq!(frags.len(), 2);
    assert_eq!(frags[0].region, Region::TaskList);
    assert!(!frags[0].oob);
    assert_eq!(frags[1].region, Region::Footer);
    assert!(!frags[1].oob);
    assert!(!frags[1].body.contains("hx-swap-oob"));
}

#[test]
fn serialized_response_concatenates_bodies_in_order() {
    let mut state = State::default();
    let frags = add_todo(&mut state, "x".to_string(), TodoPlaceholder::FullPayload)
        .expect("non-empty description");
    let body = serialize_fragments(&frags);
    assert_eq!(body, format!("{}{}", frags[0].body, frags[1].body));
}

#[test]
fn get_id_is_monotonic_and_never_repeats() {
    let mut state = State::default();
    assert_eq!(state.get_id(), 1);
    assert_eq!(state.get_id(), 2);
    assert_eq!(state.get_id(), 3);
    assert_eq!(state.next_id, 4);
}

#[test]
fn filter_codec_round_trip_and_rejection() {
    for f in [Filter::All, Filter::Active, Filter::Completed] {
        let wire = f.encode();
        assert_eq!(Filter::decode(&wire), Ok(f));
    }
    assert_eq!(Filter::decode("All"), Ok(Filter::All));
    assert_eq!(Filter::decode("Active"), Ok(Filter::Active));
    assert_eq!(Filter::decode("Completed"), Ok(Filter::Completed));
    assert_eq!(
        Filter::decode("Bogus"),
        Err(ValidationError::InvalidFilterValue)
    );
    assert_eq!(
        Filter::decode("active"),
        Err(ValidationError::InvalidFilterValue)
    );
    assert_eq!(
        Filter::decode(""),
        Err(ValidationError::InvalidFilterValue)
    );
}
