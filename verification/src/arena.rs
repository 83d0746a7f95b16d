//! Append-only arena that owns all expression and plan nodes.
//!
//! Nodes reference each other through opaque [`Node`] handles instead of
//! owned recursive trees. A handle stays valid for the arena's whole
//! lifetime: the arena never deletes or renumbers entries.

use vstd::prelude::*;

verus! {

/// Whether `a` is a prefix of `b`: the arena grew from `a` to `b` by
/// appending only, so every handle issued against `a` still refers to
/// the same element in `b`.
pub open spec fn prefix_of<T>(a: Seq<T>, b: Seq<T>) -> bool {
    a.len() <= b.len() && forall|i: int| 0 <= i < a.len() ==> a[i] == b[i]
}

/// Prefix growth composes: two appends in a row are one append.
pub proof fn lemma_prefix_trans<T>(a: Seq<T>, b: Seq<T>, c: Seq<T>)
    requires
        prefix_of(a, b),
        prefix_of(b, c),
    ensures
        prefix_of(a, c),
{
}

/// Opaque, stable handle to an element stored in an [`Arena`].
///
/// A handle is only meaningful against the arena that issued it.
#[derive(Clone, Copy, PartialEq, Eq, Structural, Debug, Hash)]
pub struct Node(pub usize);

/// Append-only owning store of elements indexed by [`Node`] handles.
///
/// Viewed as the sequence of elements in insertion order. `add` is the
/// only way to create a handle; `get`/`get_mut` are total for every
/// handle the arena itself issued.
pub struct Arena<T> {
    items: Vec<T>,
}

impl<T> View for Arena<T> {
    type V = Seq<T>;

    closed spec fn view(&self) -> Seq<T> {
        self.items@
    }
}

impl<T> Arena<T> {
    /// Creates an empty arena.
    pub fn new() -> (result: Arena<T>)
        ensures
            result@ == Seq::<T>::empty(),
    {
        Arena { items: Vec::new() }
    }

    /// Number of elements stored so far.
    pub fn len(&self) -> (result: usize)
        ensures
            result == self@.len(),
    {
        self.items.len()
    }

    /// Appends `value` and returns the handle that now refers to it.
    ///
    /// No existing handle is invalidated or renumbered.
    pub fn add(&mut self, value: T) -> (result: Node)
        ensures
            final(self)@ == old(self)@.push(value),
            result.0 == old(self)@.len(),
    {
        let idx = self.items.len();
        self.items.push(value);
        Node(idx)
    }

    /// Reads the element a handle refers to.
    ///
    /// Total for every handle this arena issued.
    pub fn get(&self, node: Node) -> (result: &T)
        requires
            node.0 < self@.len(),
        ensures
            *result == self@[node.0 as int],
    {
        &self.items[node.0]
    }

    /// Mutable access to the element a handle refers to.
    pub fn get_mut(&mut self, node: Node) -> (result: &mut T)
        requires
            node.0 < old(self)@.len(),
        ensures
            *result == old(self)@[node.0 as int],
            final(self)@ == old(self)@.update(node.0 as int, *final(result)),
    {
        &mut self.items[node.0]
    }
}

} // verus!
