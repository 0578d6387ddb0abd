//! What every array builder can do, whatever it builds.

use crate::array::ArrayRef;
use crate::array_data::ArrayDataView;
use vstd::prelude::*;

verus! {

/// A builder of arrays: it counts the slots appended so far and, on
/// `finish`, freezes them into an array and starts over.
pub trait ArrayBuilder: Sized {
    /// The builder's parts agree with each other.
    spec fn wf(&self) -> bool;

    /// The number of slots appended since the builder was made or last
    /// finished.
    spec fn spec_len(&self) -> nat;

    /// Whether what was appended makes up an array: `finish` asks for it.
    spec fn can_finish(&self) -> bool;

    /// The array that `finish` gives.
    spec fn built(&self) -> ArrayDataView;

    /// Whether this is the state in which `finish` leaves a builder that was
    /// in the state `before`.
    spec fn reset_of(&self, before: &Self) -> bool;

    /// The array that `finish` gives has the builder's slots.
    proof fn lemma_built_len(&self)
        requires
            self.wf(),
        ensures
            self.built().len == self.spec_len(),
    ;

    /// The number of slots appended so far.
    fn len(&self) -> (r: usize)
        requires
            self.wf(),
        ensures
            r == self.spec_len(),
    ;

    /// Whether no slot was appended so far.
    fn is_empty(&self) -> (r: bool)
        requires
            self.wf(),
        ensures
            r == (self.spec_len() == 0),
    ;

    /// Freezes the slots appended so far into an array and leaves the
    /// builder empty, ready for a new round of appends.
    fn finish(&mut self) -> (r: ArrayRef)
        requires
            old(self).wf(),
            old(self).can_finish(),
        ensures
            r@ == old(self).built(),
            final(self).wf(),
            final(self).spec_len() == 0,
            final(self).reset_of(old(self)),
    ;
}

} // verus!
