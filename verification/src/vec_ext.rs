use vstd::prelude::*;

verus! {

/// The predicate turns down every element of `s` before position `upto`.
pub open spec fn rejects_before<T, P: FnMut(&T) -> bool>(
    s: Seq<T>,
    predicate: P,
    upto: int,
) -> bool {
    forall|j: int|
        0 <= j < upto && j < s.len() ==> call_ensures(predicate, (&#[trigger] s[j],), false)
}

/// Position `i` holds the first element of `s` that the predicate accepts.
pub open spec fn first_accepted_at<T, P: FnMut(&T) -> bool>(
    s: Seq<T>,
    predicate: P,
    i: int,
) -> bool {
    &&& 0 <= i < s.len()
    &&& call_ensures(predicate, (&s[i],), true)
    &&& rejects_before(s, predicate, i)
}

/// The position of the first element of `v` that `predicate` accepts, if it
/// accepts any.
pub fn position<T, P>(v: &Vec<T>, predicate: P) -> (found: Option<usize>) where
    P: FnMut(&T) -> bool,

    requires
        forall|i: int| 0 <= i < v@.len() ==> call_requires(predicate, (&#[trigger] v@[i],)),
    ensures
        match found {
            Some(i) => first_accepted_at(v@, predicate, i as int),
            None => rejects_before(v@, predicate, v@.len() as int),
        },
{
    let mut accepts = predicate;
    let mut i: usize = 0;
    while i < v.len()
        invariant
            i <= v.len(),
            accepts == predicate,
            forall|k: int| 0 <= k < v@.len() ==> call_requires(accepts, (&#[trigger] v@[k],)),
            rejects_before(v@, accepts, i as int),
        decreases v.len() - i,
    {
        if accepts(&v[i]) {
            return Some(i);
        }
        i += 1;
    }
    None
}

/// Removal of the first element that a predicate accepts.
pub trait VecExt<T>: View<V = Seq<T>> {
    /// Takes out the first element that `predicate` accepts and returns it.
    /// The elements behind it move up by one place, and nothing else changes.
    /// Where the predicate accepts no element, nothing is removed.
    fn remove_first<P>(&mut self, predicate: P) -> (removed: Option<T>) where
        P: FnMut(&T) -> bool,

        requires
            forall|i: int|
                0 <= i < old(self)@.len() ==> call_requires(
                    predicate,
                    (&#[trigger] old(self)@[i],),
                ),
        ensures
            match removed {
                Some(x) => exists|i: int|
                    {
                        &&& #[trigger] first_accepted_at(old(self)@, predicate, i)
                        &&& x == old(self)@[i]
                        &&& final(self)@ == old(self)@.remove(i)
                    },
                None => {
                    &&& rejects_before(old(self)@, predicate, old(self)@.len() as int)
                    &&& final(self)@ == old(self)@
                },
            },
    ;
}

impl<T> VecExt<T> for Vec<T> {
    fn remove_first<P>(&mut self, predicate: P) -> (removed: Option<T>) where
        P: FnMut(&T) -> bool,
     {
        let index = position(self, predicate);
        match index {
            Some(i) => Some(self.remove(i)),
            None => None,
        }
    }
}

} // verus!
