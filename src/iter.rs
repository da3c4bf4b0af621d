use vstd::prelude::*;
use crate::array::Array;

verus! {

/// A single-pass forward cursor over the elements of an [`Array`].
///
/// It hands out the elements in index order and, once past the last one,
/// answers `None` to every further request. It does not own the elements.
pub struct Iter<'a, T> {
    array: &'a Array<T>,
    index: usize,
}

impl<'a, T> Iter<'a, T> {
    /// The elements of the array walked over, in index order.
    pub closed spec fn elements(&self) -> Seq<T> {
        self.array@
    }

    /// How many elements have been handed out so far.
    pub closed spec fn position(&self) -> nat {
        self.index as nat
    }

    /// The cursor never runs past the end of its array.
    pub closed spec fn wf(&self) -> bool {
        self.index <= self.array@.len()
    }

    /// A cursor at the first element of `array`.
    pub fn new(array: &'a Array<T>) -> (r: Iter<'a, T>)
        ensures
            r.wf(),
            r.elements() == array@,
            r.position() == 0,
    {
        Iter { array, index: 0 }
    }

    /// The next element, or `None` once every element has been handed out.
    pub fn next(&mut self) -> (r: Option<&'a T>)
        requires
            old(self).wf(),
        ensures
            final(self).wf(),
            final(self).position() <= final(self).elements().len(),
            final(self).elements() == old(self).elements(),
            old(self).position() < old(self).elements().len() ==> {
                &&& r == Some(&old(self).elements()[old(self).position() as int])
                &&& final(self).position() == old(self).position() + 1
            },
            old(self).position() >= old(self).elements().len() ==> {
                &&& r is None
                &&& final(self).position() == old(self).position()
            },
    {
        if self.index < self.array.len() {
            let r = self.array.get(self.index);
            self.index = self.index + 1;
            r
        } else {
            None
        }
    }
}

} // verus!
