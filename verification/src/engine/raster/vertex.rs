use vstd::prelude::*;
use crate::engine::storage;

verus! {

/// Vertex data: a list of attributes (position, normal, uv, ...), one
/// scalar each.
#[derive(Clone, Debug)]
pub struct Vertex<S> {
    pub data: Vec<S>,
}

impl<S: Copy> Vertex<S> {
    /// `size` attributes, each `S::default()` (zero for floats).
    pub fn new(size: usize) -> (r: Self)
        where S: Default,
        ensures
            exists|z: S| call_ensures(S::default, (), z) && r.data@ == storage::filled(size as nat, z),
    {
        let z = S::default();
        Vertex { data: storage::filled_vec(size, z) }
    }

    /// A vertex with the given attributes.
    pub fn from_data(data: Vec<S>) -> (r: Self)
        ensures
            r.data@ == data@,
    {
        Vertex { data }
    }

    /// A vertex with the same attributes, in its own storage.
    pub(crate) fn duplicate(&self) -> (r: Self)
        ensures
            r.data@ == self.data@,
    {
        let mut data: Vec<S> = Vec::new();
        let mut i: usize = 0;
        while i < self.data.len()
            invariant
                i <= self.data@.len(),
                data@ == self.data@.take(i as int),
            decreases self.data@.len() - i,
        {
            data.push(self.data[i]);
            assert(data@ =~= self.data@.take(i + 1));
            i = i + 1;
        }
        assert(data@ =~= self.data@);
        Vertex { data }
    }

    /// The number of attributes.
    pub fn len(&self) -> (r: usize)
        ensures
            r == self.data@.len(),
    {
        self.data.len()
    }

    pub fn is_empty(&self) -> (r: bool)
        ensures
            r == (self.data@.len() == 0),
    {
        self.data.len() == 0
    }
}

} // verus!
