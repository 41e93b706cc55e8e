//! A value that may be written as nothing, as one item or as a list of items.

use vstd::prelude::*;

verus! {

/// Nothing, one item, or a list of items.
#[derive(Debug, Clone, PartialEq)]
pub enum Multi<T> {
    Empty,
    Single(T),
    Many(Vec<T>),
}

impl<T> Default for Multi<T> {
    fn default() -> (m: Self)
        ensures
            m is Empty,
    {
        Multi::Empty
    }
}

impl<T> Multi<T> {
    /// The items that the value stands for, in order.
    pub open spec fn items(&self) -> Seq<T> {
        match self {
            Multi::Empty => Seq::empty(),
            Multi::Single(t) => seq![*t],
            Multi::Many(ts) => ts@,
        }
    }

    /// The items as a list: empty for `Empty`, one item for `Single`.
    pub fn to_vec(&self) -> (r: Vec<T>) where T: Clone
        ensures
            r.len() == self.items().len(),
            forall|i: int| 0 <= i < r.len() ==> cloned(self.items()[i], #[trigger] r[i]),
    {
        match self {
            Multi::Empty => Vec::new(),
            Multi::Single(t) => {
                let mut r: Vec<T> = Vec::new();
                r.push(t.clone());
                r
            },
            Multi::Many(ts) => ts.clone(),
        }
    }

    /// The items as a list, or `None` where nothing was written.
    pub fn to_option(&self) -> (r: Option<Vec<T>>) where T: Clone
        ensures
            r is None <==> self is Empty,
            r is Some ==> r->0.len() == self.items().len(),
            r is Some ==> forall|i: int|
                0 <= i < self.items().len() ==> cloned(self.items()[i], #[trigger] r->0[i]),
    {
        match self {
            Multi::Empty => None,
            _ => Some(self.to_vec()),
        }
    }
}

} // verus!
