use vstd::prelude::*;
use crate::logic::{State, NONEXISTENT_TODO};
use crate::model::StateView;

verus! {

/// What the front-end can ask of a store.
#[allow(inconsistent_fields)]
pub enum Msg {
    AddTodo,
    RemoveTodo { id: u64 },
    ChangeDescription { id: u64, new_value: String },
    ChangeDone { id: u64, new_value: bool },
}

/// A request as a mathematical value.
#[allow(inconsistent_fields)]
pub enum MsgView {
    AddTodo,
    RemoveTodo { id: nat },
    ChangeDescription { id: nat, new_value: Seq<char> },
    ChangeDone { id: nat, new_value: bool },
}

impl View for Msg {
    type V = MsgView;

    open spec fn view(&self) -> MsgView {
        match *self {
            Msg::AddTodo => MsgView::AddTodo,
            Msg::RemoveTodo { id } => MsgView::RemoveTodo { id: id as nat },
            Msg::ChangeDescription { id, new_value } => MsgView::ChangeDescription {
                id: id as nat,
                new_value: new_value@,
            },
            Msg::ChangeDone { id, new_value } => MsgView::ChangeDone { id: id as nat, new_value },
        }
    }
}

impl Msg {
    /// The request that a click on an item's checkbox stands for: the item
    /// that carries `id` is to get the opposite of its present flag `done`.
    pub fn toggle_done(id: u64, done: bool) -> (msg: Msg)
        ensures
            msg@ == (MsgView::ChangeDone { id: id as nat, new_value: !done }),
    {
        Msg::ChangeDone { id: id, new_value: !done }
    }
}

impl StateView {
    /// A change of an item can only be carried out on an item that is there;
    /// adding and removing can always be carried out.
    pub open spec fn admits(self, msg: MsgView) -> bool {
        match msg {
            MsgView::AddTodo => true,
            MsgView::RemoveTodo { .. } => true,
            MsgView::ChangeDescription { id, .. } => self.contains(id),
            MsgView::ChangeDone { id, .. } => self.contains(id),
        }
    }

    /// The store after a request has been carried out. A new item starts with
    /// an empty description and is not done. A request that the store does not
    /// admit leaves it as it is.
    pub open spec fn apply(self, msg: MsgView) -> StateView {
        match msg {
            MsgView::AddTodo => self.add(Seq::empty(), false),
            MsgView::RemoveTodo { id } => self.remove(id),
            MsgView::ChangeDescription { id, new_value } => self.set_description(id, new_value),
            MsgView::ChangeDone { id, new_value } => self.set_done(id, new_value),
        }
    }

    /// The store after each of `msgs` has been carried out in turn.
    pub open spec fn apply_all(self, msgs: Seq<MsgView>) -> StateView
        decreases msgs.len(),
    {
        if msgs.len() == 0 {
            self
        } else {
            self.apply_all(msgs.drop_last()).apply(msgs.last())
        }
    }

    /// Whatever is asked of a well-formed store, it stays well-formed and its
    /// counter does not fall. A request that it does not admit changes
    /// nothing. An identifier below the counter that no item carries is
    /// carried by no item afterwards either: what was handed out once and
    /// removed does not come back.
    pub proof fn lemma_apply(self, msg: MsgView)
        requires
            self.wf(),
        ensures
            self.apply(msg).wf(),
            self.apply(msg).next_id >= self.next_id,
            !self.admits(msg) ==> self.apply(msg) == self,
            forall|id: nat|
                id < self.next_id && !self.contains(id) ==> !#[trigger] self.apply(msg).contains(
                    id,
                ),
    {
        let after = self.apply(msg);
        match msg {
            MsgView::AddTodo => {
                self.lemma_add(Seq::empty(), false);
            },
            MsgView::RemoveTodo { id } => {
                if self.contains(id) {
                    self.lemma_remove_present(id);
                }
            },
            MsgView::ChangeDescription { id, new_value } => {
                if self.contains(id) {
                    self.lemma_set_description_present(id, new_value);
                }
            },
            MsgView::ChangeDone { id, new_value } => {
                if self.contains(id) {
                    self.lemma_set_done_present(id, new_value);
                }
            },
        }
        assert forall|id: nat| id < self.next_id && !self.contains(id) implies !#[trigger] after.contains(
            id,
        ) by {
            if after.contains(id) {
                let a = choose|a: int| 0 <= a < after.todos.len() && after.todos[a].id == id;
                match msg {
                    MsgView::AddTodo => {
                        if a < self.todos.len() {
                            assert(self.todos[a].id == id);
                        }
                    },
                    MsgView::RemoveTodo { id: gone } => {
                        if self.contains(gone) {
                            let i = self.index_of(gone);
                            let a0 = if a < i { a } else { a + 1 };
                            assert(self.todos[a0].id == id);
                        }
                    },
                    MsgView::ChangeDescription { .. } => {
                        assert(self.todos[a].id == id);
                    },
                    MsgView::ChangeDone { .. } => {
                        assert(self.todos[a].id == id);
                    },
                }
            }
        }
    }

    /// The same holds of any number of requests in a row, and so of every
    /// store that can be reached from a well-formed one.
    pub proof fn lemma_apply_all(self, msgs: Seq<MsgView>)
        requires
            self.wf(),
        ensures
            self.apply_all(msgs).wf(),
            self.apply_all(msgs).next_id >= self.next_id,
            forall|id: nat|
                id < self.next_id && !self.contains(id) ==> !#[trigger] self.apply_all(
                    msgs,
                ).contains(id),
        decreases msgs.len(),
    {
        if msgs.len() > 0 {
            let front = self.apply_all(msgs.drop_last());
            self.lemma_apply_all(msgs.drop_last());
            front.lemma_apply(msgs.last());
            assert forall|id: nat| id < self.next_id && !self.contains(id) implies !#[trigger] self.apply_all(
                msgs,
            ).contains(id) by {
                assert(!front.contains(id));
            }
        }
    }

    /// Every store that requests can make of the empty one is well-formed: no
    /// two of its items carry the same identifier, and its counter lies above
    /// them all.
    pub proof fn lemma_reachable(msgs: Seq<MsgView>)
        ensures
            StateView::empty().apply_all(msgs).wf(),
    {
        StateView::empty().lemma_apply_all(msgs);
    }
}

impl State {
    /// Carries out a request and says whether the display has to be drawn
    /// again, which it has after every request. A change of an item that is
    /// not there is reported and changes nothing.
    pub fn update(&mut self, msg: Msg) -> (outcome: Result<bool, &str>)
        requires
            msg is AddTodo ==> old(self)@.next_id < u64::MAX,
        ensures
            final(self)@ == old(self)@.apply(msg@),
            final(self)@.wf(),
            outcome is Ok <==> old(self)@.admits(msg@),
            outcome matches Ok(redraw) ==> redraw,
            outcome matches Err(message) ==> message@ == NONEXISTENT_TODO@,
    {
        match msg {
            Msg::AddTodo => {
                self.add_todo(String::new(), false);
                Ok(true)
            },
            Msg::RemoveTodo { id } => {
                self.remove_todo(id);
                Ok(true)
            },
            Msg::ChangeDescription { id, new_value } => {
                match self.set_todo_description(id, new_value) {
                    Ok(()) => Ok(true),
                    Err(message) => Err(message),
                }
            },
            Msg::ChangeDone { id, new_value } => {
                match self.set_todo_done(id, new_value) {
                    Ok(()) => Ok(true),
                    Err(message) => Err(message),
                }
            },
        }
    }
}

} // verus!
