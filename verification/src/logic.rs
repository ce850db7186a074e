use vstd::prelude::*;
use crate::model::{StateView, ToDoView};
use crate::vec_ext::{first_accepted_at, position, VecExt};

verus! {

/// A to-do item: what is to be done, whether it has been done, and the
/// identifier under which its store knows it.
#[derive(Debug)]
pub struct ToDo {
    pub id: u64,
    pub description: String,
    pub done: bool,
}

impl View for ToDo {
    type V = ToDoView;

    open spec fn view(&self) -> ToDoView {
        ToDoView { id: self.id as nat, description: self.description@, done: self.done }
    }
}

impl Clone for ToDo {
    fn clone(&self) -> (copy: Self)
        ensures
            copy == *self,
    {
        ToDo { id: self.id, description: self.description.clone(), done: self.done }
    }
}

/// What a change of an item reports where no item carries the identifier.
pub const NONEXISTENT_TODO: &'static str = "Nonexistent todo";

/// The items of a vector, each as a mathematical value.
pub open spec fn views(items: Seq<ToDo>) -> Seq<ToDoView> {
    items.map_values(|t: ToDo| t@)
}

/// A store of to-do items. It keeps them in the order in which they were
/// added and gives each an identifier of its own, counting up from 1; an
/// identifier is never given out a second time, also not after its item was
/// removed. The items are read through `todos` and changed only through the
/// operations of the store, each of which leaves it well-formed.
#[derive(Debug)]
pub struct State {
    todos: Vec<ToDo>,
    next_id: u64,
}

impl View for State {
    type V = StateView;

    closed spec fn view(&self) -> StateView {
        StateView { todos: views(self.todos@), next_id: self.next_id as nat }
    }
}

impl State {
    /// Holds of every store at every moment.
    #[verifier::type_invariant]
    spec fn inv(self) -> bool {
        self@.wf()
    }

    /// The empty store.
    pub fn new() -> (s: State)
        ensures
            s@ == StateView::empty(),
            s@.wf(),
    {
        let s = State { todos: Vec::new(), next_id: 1 };
        assert(s@.todos =~= Seq::empty());
        s
    }

    /// The items, in insertion order.
    pub fn todos(&self) -> (items: &Vec<ToDo>)
        ensures
            views(items@) == self@.todos,
            self@.wf(),
    {
        proof {
            use_type_invariant(self);
        }
        &self.todos
    }

    /// The identifier that the next new item will get.
    pub fn next_id(&self) -> (id: u64)
        ensures
            id == self@.next_id,
            self@.wf(),
    {
        proof {
            use_type_invariant(self);
        }
        self.next_id
    }

    /// Hands out the items and leaves the store empty, with its counter as it
    /// was.
    fn take_todos(&mut self) -> (items: Vec<ToDo>)
        ensures
            items == old(self).todos,
            final(self).todos@.len() == 0,
            final(self).next_id == old(self).next_id,
            views(items@) == old(self)@.todos,
            old(self)@.wf(),
    {
        proof {
            use_type_invariant(&*self);
        }
        let mut items: Vec<ToDo> = Vec::new();
        std::mem::swap(&mut items, &mut self.todos);
        items
    }

    /// Appends a new item under the next identifier and moves the counter on.
    /// The identifier is one that no item of the store carries. The counter
    /// must not have run out.
    pub fn add_todo(&mut self, description: String, done: bool)
        requires
            old(self)@.next_id < u64::MAX,
        ensures
            final(self)@ == old(self)@.add(description@, done),
            final(self)@.wf(),
            final(self)@.todos.last() == (ToDoView {
                id: old(self)@.next_id,
                description: description@,
                done,
            }),
            final(self)@.todos.drop_last() == old(self)@.todos,
            final(self)@.next_id == old(self)@.next_id + 1,
            !old(self)@.contains(old(self)@.next_id),
    {
        let id: u64 = self.next_id;
        let mut items = self.take_todos();
        items.push(ToDo { id: id, description: description, done: done });
        self.next_id = id + 1;
        proof {
            let before = old(self)@;
            let after = before.add(description@, done);
            assert(views(items@) =~= after.todos);
            assert(after.todos.drop_last() =~= before.todos);
            before.lemma_add(description@, done);
        }
        self.todos = items;
    }

    /// Takes out the item that carries `id` and returns it. Where no item
    /// carries it, nothing changes and nothing is returned.
    pub fn remove_todo(&mut self, id: u64) -> (removed: Option<ToDo>)
        ensures
            final(self)@ == old(self)@.remove(id as nat),
            final(self)@.wf(),
            removed is Some <==> old(self)@.contains(id as nat),
            removed is None ==> final(self)@ == old(self)@,
            removed matches Some(t) ==> {
                let i = old(self)@.index_of(id as nat);
                &&& old(self)@.first_at(id as nat, i)
                &&& t@ == old(self)@.todos[i]
                &&& t.id == id
                &&& final(self)@.todos == old(self)@.todos.remove(i)
                &&& final(self)@.todos.len() == old(self)@.todos.len() - 1
                &&& final(self)@.next_id == old(self)@.next_id
            },
            !final(self)@.contains(id as nat),
    {
        let mut items = self.take_todos();
        let ghost before = items@;
        let by_id = |t: &ToDo| -> (b: bool)
            ensures
                b == (t.id == id),
            { t.id == id };
        let removed = items.remove_first(by_id);
        proof {
            let s = old(self)@;
            if removed is Some {
                let t = removed->0;
                let i = choose|i: int|
                    #[trigger] first_accepted_at(before, by_id, i) && t == before[i] && items@
                        == before.remove(i);
                assert forall|j: int| 0 <= j < i implies s.todos[j].id != id by {
                    assert(call_ensures(by_id, (&before[j],), false));
                }
                s.lemma_index_of(id as nat, i);
                assert(views(items@) =~= s.todos.remove(i));
                s.lemma_remove_present(id as nat);
            } else {
                assert forall|j: int| 0 <= j < s.todos.len() implies s.todos[j].id != id by {
                    assert(call_ensures(by_id, (&before[j],), false));
                }
                assert(!s.contains(id as nat));
            }
        }
        self.todos = items;
        removed
    }

    /// The position of the item that carries `id`, if the store holds one.
    fn find(&self, id: u64) -> (found: Option<usize>)
        ensures
            self@.wf(),
            found is Some <==> self@.contains(id as nat),
            found matches Some(i) ==> i == self@.index_of(id as nat) && i < self.todos@.len()
                && self@.first_at(id as nat, i as int),
    {
        proof {
            use_type_invariant(self);
        }
        let by_id = |t: &ToDo| -> (b: bool)
            ensures
                b == (t.id == id),
            { t.id == id };
        let found = position(&self.todos, by_id);
        proof {
            let s = self@;
            match found {
                Some(i) => {
                    assert forall|j: int| 0 <= j < i implies s.todos[j].id != id by {
                        assert(call_ensures(by_id, (&self.todos@[j],), false));
                    }
                    s.lemma_index_of(id as nat, i as int);
                },
                None => {
                    assert forall|j: int| 0 <= j < s.todos.len() implies s.todos[j].id != id by {
                        assert(call_ensures(by_id, (&self.todos@[j],), false));
                    }
                    assert(!s.contains(id as nat));
                },
            }
        }
        found
    }

    /// Sets the completion flag of the item that carries `id`. Where no item
    /// carries it, nothing changes and the failure is reported.
    pub fn set_todo_done(&mut self, id: u64, new_value: bool) -> (outcome: Result<(), &str>)
        ensures
            final(self)@ == old(self)@.set_done(id as nat, new_value),
            final(self)@.wf(),
            outcome is Ok <==> old(self)@.contains(id as nat),
            outcome is Err ==> final(self)@ == old(self)@,
            outcome matches Err(message) ==> message@ == NONEXISTENT_TODO@,
            old(self)@.only_done_differs(final(self)@, id as nat, new_value),
    {
        match self.find(id) {
            Some(i) => {
                let mut items = self.take_todos();
                items[i].done = new_value;
                proof {
                    let s = old(self)@;
                    assert(views(items@) =~= s.set_done(id as nat, new_value).todos);
                    s.lemma_set_done_present(id as nat, new_value);
                }
                self.todos = items;
                Ok(())
            },
            None => {
                proof {
                    old(self)@.lemma_set_done_absent(id as nat, new_value);
                }
                Err(NONEXISTENT_TODO)
            },
        }
    }

    /// Replaces the description of the item that carries `id`. Where no item
    /// carries it, nothing changes and the failure is reported.
    pub fn set_todo_description(&mut self, id: u64, new_value: String) -> (outcome: Result<
        (),
        &str,
    >)
        ensures
            final(self)@ == old(self)@.set_description(id as nat, new_value@),
            final(self)@.wf(),
            outcome is Ok <==> old(self)@.contains(id as nat),
            outcome is Err ==> final(self)@ == old(self)@,
            outcome matches Err(message) ==> message@ == NONEXISTENT_TODO@,
            old(self)@.only_description_differs(final(self)@, id as nat, new_value@),
    {
        match self.find(id) {
            Some(i) => {
                let mut items = self.take_todos();
                items[i].description = new_value;
                proof {
                    let s = old(self)@;
                    assert(views(items@) =~= s.set_description(id as nat, new_value@).todos);
                    s.lemma_set_description_present(id as nat, new_value@);
                }
                self.todos = items;
                Ok(())
            },
            None => {
                proof {
                    old(self)@.lemma_set_description_absent(id as nat, new_value@);
                }
                Err(NONEXISTENT_TODO)
            },
        }
    }

    /// Marks the item that carries `id` as done.
    pub fn complete_todo(&mut self, id: u64) -> (outcome: Result<(), &str>)
        ensures
            final(self)@ == old(self)@.set_done(id as nat, true),
            final(self)@.wf(),
            outcome is Ok <==> old(self)@.contains(id as nat),
            outcome is Err ==> final(self)@ == old(self)@,
            outcome matches Err(message) ==> message@ == NONEXISTENT_TODO@,
            old(self)@.only_done_differs(final(self)@, id as nat, true),
    {
        self.set_todo_done(id, true)
    }

    /// Marks the item that carries `id` as not done.
    pub fn uncomplete_todo(&mut self, id: u64) -> (outcome: Result<(), &str>)
        ensures
            final(self)@ == old(self)@.set_done(id as nat, false),
            final(self)@.wf(),
            outcome is Ok <==> old(self)@.contains(id as nat),
            outcome is Err ==> final(self)@ == old(self)@,
            outcome matches Err(message) ==> message@ == NONEXISTENT_TODO@,
            old(self)@.only_done_differs(final(self)@, id as nat, false),
    {
        self.set_todo_done(id, false)
    }
}

impl Clone for State {
    fn clone(&self) -> (copy: Self)
        ensures
            copy@ == self@,
    {
        proof {
            use_type_invariant(self);
        }
        let items = self.todos.clone();
        assert(views(items@) =~= views(self.todos@));
        State { todos: items, next_id: self.next_id }
    }
}

} // verus!
