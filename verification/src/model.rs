use vstd::prelude::*;

verus! {

/// A to-do item as a mathematical value.
pub struct ToDoView {
    pub id: nat,
    pub description: Seq<char>,
    pub done: bool,
}

/// A store as a mathematical value: the items in insertion order, and the
/// identifier that the next new item will get.
pub struct StateView {
    pub todos: Seq<ToDoView>,
    pub next_id: nat,
}

impl StateView {
    /// The store that holds nothing yet: its first item will get identifier 1.
    pub open spec fn empty() -> StateView {
        StateView { todos: Seq::empty(), next_id: 1 }
    }

    /// Identifiers grow strictly along the sequence, so no two items share
    /// one, and the counter lies above all of them.
    pub open spec fn wf(self) -> bool {
        &&& self.next_id >= 1
        &&& forall|i: int, j: int|
            0 <= i < j < self.todos.len() ==> self.todos[i].id < self.todos[j].id
        &&& forall|i: int| 0 <= i < self.todos.len() ==> self.todos[i].id < self.next_id
    }

    /// Some item carries the identifier `id`.
    pub open spec fn contains(self, id: nat) -> bool {
        exists|i: int| 0 <= i < self.todos.len() && self.todos[i].id == id
    }

    /// Position `i` holds the first item that carries the identifier `id`.
    pub open spec fn first_at(self, id: nat, i: int) -> bool {
        &&& 0 <= i < self.todos.len()
        &&& self.todos[i].id == id
        &&& forall|j: int| 0 <= j < i ==> self.todos[j].id != id
    }

    /// The position of the first item that carries the identifier `id`, where
    /// there is one.
    pub open spec fn index_of(self, id: nat) -> int {
        choose|i: int| self.first_at(id, i)
    }

    /// The store after a new item with this description and flag has been
    /// appended under the next identifier.
    pub open spec fn add(self, description: Seq<char>, done: bool) -> StateView {
        StateView {
            todos: self.todos.push(ToDoView { id: self.next_id, description, done }),
            next_id: self.next_id + 1,
        }
    }

    /// The store after each of `items`, a description and a flag, has been
    /// added in turn.
    pub open spec fn add_all(self, items: Seq<(Seq<char>, bool)>) -> StateView
        decreases items.len(),
    {
        if items.len() == 0 {
            self
        } else {
            self.add_all(items.drop_last()).add(items.last().0, items.last().1)
        }
    }

    /// The store without the first item that carries `id`; the store itself
    /// where no item does.
    pub open spec fn remove(self, id: nat) -> StateView {
        if self.contains(id) {
            StateView { todos: self.todos.remove(self.index_of(id)), ..self }
        } else {
            self
        }
    }

    /// The store with the completion flag of the first item that carries `id`
    /// set to `value`; the store itself where no item does.
    pub open spec fn set_done(self, id: nat, value: bool) -> StateView {
        if self.contains(id) {
            let i = self.index_of(id);
            StateView {
                todos: self.todos.update(i, ToDoView { done: value, ..self.todos[i] }),
                ..self
            }
        } else {
            self
        }
    }

    /// The store with the description of the first item that carries `id`
    /// replaced by `value`; the store itself where no item does.
    pub open spec fn set_description(self, id: nat, value: Seq<char>) -> StateView {
        if self.contains(id) {
            let i = self.index_of(id);
            StateView {
                todos: self.todos.update(i, ToDoView { description: value, ..self.todos[i] }),
                ..self
            }
        } else {
            self
        }
    }

    /// `after` is this store with the flag of every item that carries `id`
    /// set to `value`. Nothing else differs: not an identifier or a
    /// description, not the flag of another item, not the number or the order
    /// of the items, not the counter.
    pub open spec fn only_done_differs(self, after: StateView, id: nat, value: bool) -> bool {
        &&& after.next_id == self.next_id
        &&& after.todos.len() == self.todos.len()
        &&& forall|j: int|
            0 <= j < self.todos.len() ==> #[trigger] after.todos[j] == (ToDoView {
                done: if self.todos[j].id == id {
                    value
                } else {
                    self.todos[j].done
                },
                ..self.todos[j]
            })
    }

    /// `after` is this store with the description of every item that carries
    /// `id` replaced by `value`. Nothing else differs.
    pub open spec fn only_description_differs(
        self,
        after: StateView,
        id: nat,
        value: Seq<char>,
    ) -> bool {
        &&& after.next_id == self.next_id
        &&& after.todos.len() == self.todos.len()
        &&& forall|j: int|
            0 <= j < self.todos.len() ==> #[trigger] after.todos[j] == (ToDoView {
                description: if self.todos[j].id == id {
                    value
                } else {
                    self.todos[j].description
                },
                ..self.todos[j]
            })
    }

    /// An item found first at a position is the one that `index_of` names.
    pub proof fn lemma_index_of(self, id: nat, i: int)
        requires
            self.first_at(id, i),
        ensures
            self.contains(id),
            self.index_of(id) == i,
    {
        let k = self.index_of(id);
        assert(self.first_at(id, k));
        if k < i {
            assert(self.todos[k].id != id);
        } else if i < k {
            assert(self.todos[i].id != id);
        }
    }

    /// An identifier that occurs at position `k` has a first position, at `k`
    /// or before it, and `index_of` names it.
    pub proof fn lemma_first_exists(self, id: nat, k: int)
        requires
            0 <= k < self.todos.len(),
            self.todos[k].id == id,
        ensures
            self.contains(id),
            self.first_at(id, self.index_of(id)),
            self.index_of(id) <= k,
        decreases k,
    {
        if exists|j: int| 0 <= j < k && self.todos[j].id == id {
            let j = choose|j: int| 0 <= j < k && self.todos[j].id == id;
            self.lemma_first_exists(id, j);
        } else {
            assert(self.first_at(id, k));
            self.lemma_index_of(id, k);
        }
    }

    /// An identifier that the store holds has a first position, and `index_of`
    /// names it.
    pub proof fn lemma_contains(self, id: nat)
        requires
            self.contains(id),
        ensures
            self.first_at(id, self.index_of(id)),
    {
        let k = choose|k: int| 0 <= k < self.todos.len() && self.todos[k].id == id;
        self.lemma_first_exists(id, k);
    }

    /// In a well-formed store the item that `index_of` names is the only one
    /// that carries the identifier.
    pub proof fn lemma_unique(self, id: nat)
        requires
            self.wf(),
            self.contains(id),
        ensures
            forall|j: int|
                0 <= j < self.todos.len() ==> (#[trigger] self.todos[j].id == id <==> j
                    == self.index_of(id)),
    {
        self.lemma_contains(id);
        let i = self.index_of(id);
        assert forall|j: int| 0 <= j < self.todos.len() && j != i implies self.todos[j].id
            != id by {
            if j < i {
                assert(self.todos[j].id < self.todos[i].id);
            } else {
                assert(self.todos[i].id < self.todos[j].id);
            }
        }
    }

    /// Adding to a well-formed store appends one item under the old counter,
    /// which no item carried before, keeps what was there, and leaves a
    /// well-formed store.
    pub proof fn lemma_add(self, description: Seq<char>, done: bool)
        requires
            self.wf(),
        ensures
            self.add(description, done).wf(),
            self.add(description, done).next_id == self.next_id + 1,
            self.add(description, done).todos.len() == self.todos.len() + 1,
            self.add(description, done).todos.last() == (ToDoView {
                id: self.next_id,
                description,
                done,
            }),
            forall|j: int|
                0 <= j < self.todos.len() ==> self.add(description, done).todos[j]
                    == self.todos[j],
            !self.contains(self.next_id),
            self.add(description, done).contains(self.next_id),
    {
        let after = self.add(description, done);
        assert(after.todos[self.todos.len() as int].id == self.next_id);
    }

    /// However many items are added in a row, the k-th of them gets the old
    /// counter plus k as its identifier. So the identifiers handed out are
    /// pairwise different, grow strictly in the order of the calls, and lie
    /// above every identifier that the store held before.
    pub proof fn lemma_add_all(self, items: Seq<(Seq<char>, bool)>)
        requires
            self.wf(),
        ensures
            self.add_all(items).wf(),
            self.add_all(items).next_id == self.next_id + items.len(),
            self.add_all(items).todos.len() == self.todos.len() + items.len(),
            forall|j: int|
                0 <= j < self.todos.len() ==> self.add_all(items).todos[j] == self.todos[j],
            forall|p: int|
                self.todos.len() <= p < self.todos.len() + items.len() ==> {
                    let k = p - self.todos.len();
                    #[trigger] self.add_all(items).todos[p] == (ToDoView {
                        id: (self.next_id + k) as nat,
                        description: items[k].0,
                        done: items[k].1,
                    })
                },
            forall|p: int, q: int|
                self.todos.len() <= p < q < self.todos.len() + items.len() ==> self.add_all(
                    items,
                ).todos[p].id < self.add_all(items).todos[q].id,
            forall|j: int, p: int|
                0 <= j < self.todos.len() <= p < self.todos.len() + items.len()
                    ==> self.todos[j].id < self.add_all(items).todos[p].id,
        decreases items.len(),
    {
        if items.len() > 0 {
            let front = items.drop_last();
            self.lemma_add_all(front);
            self.add_all(front).lemma_add(items.last().0, items.last().1);
            let n = self.todos.len() as int;
            let all = self.add_all(items);
            assert forall|p: int| n <= p < n + items.len() implies #[trigger] all.todos[p] == (
            ToDoView {
                id: (self.next_id + (p - n)) as nat,
                description: items[p - n].0,
                done: items[p - n].1,
            }) by {
                if p - n < front.len() {
                    assert(all.todos[p] == self.add_all(front).todos[p]);
                    assert(front[p - n] == items[p - n]);
                }
            }
        }
    }

    /// Removing an identifier that a well-formed store holds takes out one
    /// item, keeps the others as they are and in their order, and leaves a
    /// well-formed store that no longer holds the identifier.
    pub proof fn lemma_remove_present(self, id: nat)
        requires
            self.wf(),
            self.contains(id),
        ensures
            self.remove(id).wf(),
            self.remove(id).todos.len() == self.todos.len() - 1,
            self.remove(id).next_id == self.next_id,
            !self.remove(id).contains(id),
            forall|j: int|
                0 <= j < self.index_of(id) ==> self.remove(id).todos[j] == self.todos[j],
            forall|j: int|
                self.index_of(id) <= j < self.todos.len() - 1 ==> self.remove(id).todos[j]
                    == self.todos[j + 1],
    {
        self.lemma_contains(id);
        let i = self.index_of(id);
        let after = self.remove(id);
        assert forall|a: int, b: int| 0 <= a < b < after.todos.len() implies after.todos[a].id
            < after.todos[b].id by {
            let a0 = if a < i { a } else { a + 1 };
            let b0 = if b < i { b } else { b + 1 };
            assert(self.todos[a0].id < self.todos[b0].id);
        }
        assert forall|a: int| 0 <= a < after.todos.len() implies after.todos[a].id != id by {
            let a0 = if a < i { a } else { a + 1 };
            if a0 < i {
                assert(self.todos[a0].id < self.todos[i].id);
            } else {
                assert(self.todos[i].id < self.todos[a0].id);
            }
        }
    }

    /// Removing an identifier that the store does not hold changes nothing.
    pub proof fn lemma_remove_absent(self, id: nat)
        requires
            !self.contains(id),
        ensures
            self.remove(id) == self,
    {
    }

    /// Setting the flag of an item that a well-formed store holds changes the
    /// flag of that one item and nothing else, and leaves a well-formed
    /// store.
    pub proof fn lemma_set_done_present(self, id: nat, value: bool)
        requires
            self.wf(),
            self.contains(id),
        ensures
            self.set_done(id, value).wf(),
            self.only_done_differs(self.set_done(id, value), id, value),
            self.set_done(id, value).todos[self.index_of(id)].done == value,
    {
        self.lemma_unique(id);
    }

    /// Setting the flag of an item that the store does not hold changes
    /// nothing.
    pub proof fn lemma_set_done_absent(self, id: nat, value: bool)
        requires
            !self.contains(id),
        ensures
            self.set_done(id, value) == self,
            self.only_done_differs(self, id, value),
    {
    }

    /// Setting the same flag a second time changes nothing more.
    pub proof fn lemma_set_done_twice(self, id: nat, value: bool)
        ensures
            self.set_done(id, value).set_done(id, value) == self.set_done(id, value),
    {
        if self.contains(id) {
            self.lemma_contains(id);
            let i = self.index_of(id);
            let once = self.set_done(id, value);
            assert(once.first_at(id, i));
            once.lemma_index_of(id, i);
            assert(once.set_done(id, value).todos =~= once.todos);
        }
    }

    /// Replacing the description of an item that a well-formed store holds
    /// changes the description of that one item and nothing else, and leaves
    /// a well-formed store.
    pub proof fn lemma_set_description_present(self, id: nat, value: Seq<char>)
        requires
            self.wf(),
            self.contains(id),
        ensures
            self.set_description(id, value).wf(),
            self.only_description_differs(self.set_description(id, value), id, value),
            self.set_description(id, value).todos[self.index_of(id)].description == value,
    {
        self.lemma_unique(id);
    }

    /// Replacing the description of an item that the store does not hold
    /// changes nothing.
    pub proof fn lemma_set_description_absent(self, id: nat, value: Seq<char>)
        requires
            !self.contains(id),
        ensures
            self.set_description(id, value) == self,
            self.only_description_differs(self, id, value),
    {
    }
}

} // verus!
