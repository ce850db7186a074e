use vstd::prelude::*;
use crate::logic::{State, ToDo};
use crate::model::{StateView, ToDoView};

verus! {

/// What `sample` leaves in the store: the first two of its three items, the
/// first done and the second not, and a counter that has handed out three
/// identifiers.
pub open spec fn sample_store() -> StateView {
    StateView {
        todos: seq![
            ToDoView { id: 1, description: "todo 1"@, done: true },
            ToDoView { id: 2, description: "todo 2"@, done: false },
        ],
        next_id: 4,
    }
}

/// The third item of `sample`, which it takes out again.
pub open spec fn sample_removed() -> ToDoView {
    ToDoView { id: 3, description: "todo 3"@, done: true }
}

/// A small store to start a display with. Three items are added, the first
/// not done and the others done; then the first is marked done, the second is
/// marked not done, and the third is removed. The store comes back together
/// with the removed item.
pub fn sample() -> (made: (State, Option<ToDo>))
    ensures
        made.0@ == sample_store(),
        made.1 matches Some(t) && t@ == sample_removed(),
{
    let mut state = State::new();

    state.add_todo("todo 1".to_owned(), false);
    state.add_todo("todo 2".to_owned(), true);
    state.add_todo("todo 3".to_owned(), true);
    assert(state@.first_at(1, 0) && state@.first_at(2, 1) && state@.first_at(3, 2));

    let first = state.set_todo_done(1, true);
    assert(first is Ok);
    assert(state@.first_at(2, 1));

    let second = state.set_todo_done(2, false);
    assert(second is Ok);
    assert(state@.first_at(3, 2));
    let ghost unmarked = state@;

    let removed = state.remove_todo(3);
    proof {
        unmarked.lemma_index_of(3, 2);
        assert(state@.todos =~= sample_store().todos);
    }
    (state, removed)
}

} // verus!
