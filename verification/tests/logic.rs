use todo_list::logic::{State, ToDo, NONEXISTENT_TODO};

fn snapshot(state: &State) -> Vec<(u64, String, bool)> {
    state.todos().iter().map(|t| (t.id, t.description.clone(), t.done)).collect()
}

fn row(id: u64, description: &str, done: bool) -> (u64, String, bool) {
    (id, description.to_string(), done)
}

fn three() -> State {
    let mut state = State::new();
    state.add_todo(String::from("todo 1"), false);
    state.add_todo(String::from("todo 2"), true);
    state.add_todo(String::from("todo 3"), true);
    state
}

#[test]
fn new_store_is_empty_and_counts_from_one() {
    let state = State::new();
    assert!(state.todos().is_empty());
    assert_eq!(state.next_id(), 1);
}

#[test]
fn add_three_gives_identifiers_one_two_three() {
    let state = three();
    assert_eq!(
        snapshot(&state),
        vec![row(1, "todo 1", false), row(2, "todo 2", true), row(3, "todo 3", true)]
    );
    assert_eq!(state.next_id(), 4);
}

#[test]
fn set_done_then_remove() {
    let mut state = three();

    assert_eq!(state.set_todo_done(1, true), Ok(()));
    assert_eq!(
        snapshot(&state),
        vec![row(1, "todo 1", true), row(2, "todo 2", true), row(3, "todo 3", true)]
    );

    assert_eq!(state.set_todo_done(2, false), Ok(()));
    assert_eq!(
        snapshot(&state),
        vec![row(1, "todo 1", true), row(2, "todo 2", false), row(3, "todo 3", true)]
    );

    let removed = state.remove_todo(3).expect("item 3 is there");
    assert_eq!((removed.id, removed.description.as_str(), removed.done), (3, "todo 3", true));
    assert_eq!(snapshot(&state), vec![row(1, "todo 1", true), row(2, "todo 2", false)]);
}

#[test]
fn set_done_on_missing_identifier_fails_and_changes_nothing() {
    let mut state = three();
    state.set_todo_done(1, true).unwrap();
    state.set_todo_done(2, false).unwrap();
    state.remove_todo(3);
    let before = snapshot(&state);

    assert_eq!(state.set_todo_done(99, true), Err("Nonexistent todo"));

    assert_eq!(snapshot(&state), before);
    assert_eq!(state.next_id(), 4);
}

#[test]
fn identifiers_are_unique_and_increase() {
    let mut state = State::new();
    for n in 0..50 {
        state.add_todo(format!("item {}", n), n % 2 == 0);
    }
    let ids: Vec<u64> = state.todos().iter().map(|t| t.id).collect();
    assert_eq!(ids, (1..=50).collect::<Vec<u64>>());
    for pair in ids.windows(2) {
        assert!(pair[0] < pair[1]);
    }
}

#[test]
fn removed_identifiers_are_not_handed_out_again() {
    let mut state = three();
    assert!(state.remove_todo(3).is_some());
    assert!(state.remove_todo(1).is_some());
    state.add_todo(String::from("later"), false);
    assert_eq!(snapshot(&state), vec![row(2, "todo 2", true), row(4, "later", false)]);
    assert_eq!(state.next_id(), 5);
}

#[test]
fn remove_present_returns_the_item_and_shrinks_by_one() {
    let mut state = three();
    let removed = state.remove_todo(2).expect("item 2 is there");
    assert_eq!(removed.id, 2);
    assert_eq!(removed.description, "todo 2");
    assert!(removed.done);
    assert_eq!(snapshot(&state), vec![row(1, "todo 1", false), row(3, "todo 3", true)]);
    assert_eq!(state.next_id(), 4);
}

#[test]
fn remove_absent_returns_nothing_and_changes_nothing() {
    let mut state = three();
    let before = snapshot(&state);
    assert!(state.remove_todo(7).is_none());
    assert!(state.remove_todo(0).is_none());
    assert_eq!(snapshot(&state), before);
    assert_eq!(state.next_id(), 4);
}

#[test]
fn remove_twice_finds_nothing_the_second_time() {
    let mut state = three();
    assert!(state.remove_todo(1).is_some());
    assert!(state.remove_todo(1).is_none());
    assert_eq!(state.todos().len(), 2);
}

#[test]
fn remove_from_empty_store() {
    let mut state = State::new();
    assert!(state.remove_todo(1).is_none());
    assert!(state.todos().is_empty());
    assert_eq!(state.next_id(), 1);
}

#[test]
fn set_done_touches_only_the_flag_of_that_item() {
    let mut state = three();
    assert_eq!(state.set_todo_done(2, false), Ok(()));
    assert_eq!(
        snapshot(&state),
        vec![row(1, "todo 1", false), row(2, "todo 2", false), row(3, "todo 3", true)]
    );
    assert_eq!(state.next_id(), 4);
}

#[test]
fn set_done_to_the_value_it_has_changes_nothing() {
    let mut state = three();
    let before = snapshot(&state);
    assert_eq!(state.set_todo_done(1, false), Ok(()));
    assert_eq!(state.set_todo_done(3, true), Ok(()));
    assert_eq!(snapshot(&state), before);
}

#[test]
fn set_description_touches_only_the_description_of_that_item() {
    let mut state = three();
    assert_eq!(state.set_todo_description(2, String::from("buy milk")), Ok(()));
    assert_eq!(
        snapshot(&state),
        vec![row(1, "todo 1", false), row(2, "buy milk", true), row(3, "todo 3", true)]
    );
    assert_eq!(state.next_id(), 4);
}

#[test]
fn set_description_on_missing_identifier_fails_and_changes_nothing() {
    let mut state = three();
    let before = snapshot(&state);
    assert_eq!(state.set_todo_description(4, String::from("x")), Err("Nonexistent todo"));
    assert_eq!(snapshot(&state), before);
}

#[test]
fn complete_and_uncomplete() {
    let mut state = three();
    assert_eq!(state.complete_todo(1), Ok(()));
    assert_eq!(state.uncomplete_todo(2), Ok(()));
    assert_eq!(
        snapshot(&state),
        vec![row(1, "todo 1", true), row(2, "todo 2", false), row(3, "todo 3", true)]
    );
}

#[test]
fn complete_and_uncomplete_on_missing_identifier_fail() {
    let mut state = three();
    let before = snapshot(&state);
    assert_eq!(state.complete_todo(99), Err("Nonexistent todo"));
    assert_eq!(state.uncomplete_todo(0), Err("Nonexistent todo"));
    assert_eq!(snapshot(&state), before);
}

#[test]
fn changes_on_an_empty_store_fail() {
    let mut state = State::new();
    assert_eq!(state.set_todo_done(1, true), Err("Nonexistent todo"));
    assert_eq!(state.set_todo_description(1, String::new()), Err("Nonexistent todo"));
    assert!(state.todos().is_empty());
    assert_eq!(state.next_id(), 1);
}

#[test]
fn clone_of_an_item_is_the_same_item() {
    let item = ToDo { id: 7, description: String::from("seven"), done: true };
    let copy = item.clone();
    assert_eq!((copy.id, copy.description.as_str(), copy.done), (7, "seven", true));
    assert_eq!((item.id, item.description.as_str(), item.done), (7, "seven", true));
}

#[test]
fn clone_of_a_store_is_independent() {
    let mut state = three();
    let copy = state.clone();
    state.remove_todo(1);
    state.add_todo(String::from("new"), false);
    assert_eq!(
        snapshot(&copy),
        vec![row(1, "todo 1", false), row(2, "todo 2", true), row(3, "todo 3", true)]
    );
    assert_eq!(copy.next_id(), 4);
    assert_eq!(state.next_id(), 5);
}

#[test]
fn debug_output_names_the_fields() {
    let state = three();
    let text = format!("{:?}", state);
    assert!(text.contains("next_id: 4"));
    assert!(text.contains("description: \"todo 2\""));
}

#[test]
fn failure_message_text() {
    assert_eq!(NONEXISTENT_TODO, "Nonexistent todo");
    let mut state = State::new();
    assert_eq!(state.set_todo_done(1, false), Err(NONEXISTENT_TODO));
}

#[test]
fn setting_the_same_flag_twice_is_as_setting_it_once() {
    let mut once = three();
    once.set_todo_done(1, true).unwrap();
    let mut twice = three();
    twice.set_todo_done(1, true).unwrap();
    twice.set_todo_done(1, true).unwrap();
    assert_eq!(snapshot(&once), snapshot(&twice));
    assert_eq!(once.next_id(), twice.next_id());
}

#[test]
fn adding_after_each_other_counts_on_from_the_counter() {
    let mut state = three();
    state.remove_todo(2);
    let start = state.next_id();
    let kept = snapshot(&state);
    state.add_todo(String::from("a"), true);
    state.add_todo(String::from("b"), false);
    state.add_todo(String::from("c"), true);
    let mut expected = kept;
    expected.push(row(start, "a", true));
    expected.push(row(start + 1, "b", false));
    expected.push(row(start + 2, "c", true));
    assert_eq!(snapshot(&state), expected);
    assert_eq!(state.next_id(), start + 3);
}

#[test]
fn empty_description_is_an_item_like_any_other() {
    let mut state = State::new();
    state.add_todo(String::new(), false);
    assert_eq!(snapshot(&state), vec![row(1, "", false)]);
    assert_eq!(state.set_todo_description(1, String::from("now with text")), Ok(()));
    assert_eq!(snapshot(&state), vec![row(1, "now with text", false)]);
}
