use vstd::prelude::*;
use crate::iter::Iter;
use vstd::std_specs::cmp::PartialEqSpec;

verus! {

/// A fixed-length array that owns one contiguous block of elements.
///
/// The number of elements is set when the array is built and never changes:
/// elements can be read and overwritten, but none can be added or removed.
///
/// The array supports the structured sequence mode of the `codec` module
/// only. Byte snapshots are not supported: the array owns its storage, so a
/// raw copy of its bytes taken while the original lives would make two owners
/// of one block, and the block would be freed twice.
#[derive(Debug, Eq, PartialOrd, Ord)]
pub struct Array<T> {
    elements: Vec<T>,
}

impl<T> View for Array<T> {
    type V = Seq<T>;

    /// The elements, in index order.
    closed spec fn view(&self) -> Seq<T> {
        self.elements@
    }
}

impl<T: Copy> Array<T> {
    /// Builds an array of `size` elements, each a copy of `value`.
    pub fn new(size: usize, value: T) -> (r: Array<T>)
        ensures
            r@ == Seq::new(size as nat, |i: int| value),
    {
        let mut elements: Vec<T> = Vec::with_capacity(size);
        let mut i: usize = 0;
        while i < size
            invariant
                i <= size,
                elements@ == Seq::new(i as nat, |j: int| value),
            decreases size - i,
        {
            elements.push(value);
            i = i + 1;
            assert(elements@ =~= Seq::new(i as nat, |j: int| value));
        }
        Array { elements }
    }
}

impl<T> Array<T> {
    /// Takes over the elements of a growable buffer, keeping their order.
    pub fn from_vec(elements: Vec<T>) -> (r: Array<T>)
        ensures
            r@ == elements@,
    {
        Array { elements }
    }

    /// Hands the elements over to a growable buffer, consuming the array.
    pub fn into_vec(self) -> (r: Vec<T>)
        ensures
            r@ == self@,
    {
        self.elements
    }

    /// Takes over the elements of a boxed slice, keeping their order.
    pub fn from_boxed_slice(elements: Box<[T]>) -> (r: Array<T>)
        ensures
            r@ == elements@,
    {
        Array { elements: elements.into_vec() }
    }

    /// Hands the elements over to a boxed slice, consuming the array.
    pub fn into_boxed_slice(self) -> (r: Box<[T]>)
        ensures
            r@ == self@,
    {
        boxed_from_vec(self.elements)
    }

    /// The number of elements.
    pub fn len(&self) -> (r: usize)
        ensures
            r == self@.len(),
    {
        self.elements.len()
    }

    /// Whether the array holds no element.
    pub fn is_empty(&self) -> (r: bool)
        ensures
            r == (self@.len() == 0),
    {
        self.elements.len() == 0
    }

    /// A forward cursor over the elements, starting at index 0.
    pub fn iter(&self) -> (r: Iter<'_, T>)
        ensures
            r.wf(),
            r.elements() == self@,
            r.position() == 0,
    {
        Iter::new(self)
    }

    /// The element at `index`, or `None` when `index` is not below the length.
    pub fn get(&self, index: usize) -> (r: Option<&T>)
        ensures
            index < self@.len() ==> r == Some(&self@[index as int]),
            index >= self@.len() ==> r is None,
    {
        if index < self.elements.len() {
            Some(&self.elements[index])
        } else {
            None
        }
    }
}

/// Relies on `Vec::into_boxed_slice`: the boxed slice holds the vector's
/// elements in the same order.
#[verifier::external_body]
fn boxed_from_vec<T>(v: Vec<T>) -> (r: Box<[T]>)
    ensures
        r@ == v@,
{
    v.into_boxed_slice()
}

impl<T: Copy> Array<T> {
    /// Overwrites the element at `index` with `value`; the length stays.
    pub fn set(&mut self, index: usize, value: T)
        requires
            index < old(self)@.len(),
        ensures
            final(self)@ == old(self)@.update(index as int, value),
    {
        self.elements.set(index, value);
    }

    /// The element at `index`, which the caller guarantees is in bounds.
    pub fn get_unchecked(&self, index: usize) -> (r: &T)
        requires
            index < self@.len(),
        ensures
            *r == self@[index as int],
    {
        &self.elements[index]
    }
}

impl<T: Copy> Clone for Array<T> {
    /// A new array of the same length holding the same elements, in storage
    /// of its own.
    fn clone(&self) -> (r: Self)
        ensures
            r@ == self@,
    {
        let n = self.elements.len();
        let mut elements: Vec<T> = Vec::with_capacity(n);
        let mut i: usize = 0;
        while i < n
            invariant
                n == self@.len(),
                i <= n,
                elements@ == self@.subrange(0, i as int),
            decreases n - i,
        {
            elements.push(self.elements[i]);
            i = i + 1;
            assert(elements@ =~= self@.subrange(0, i as int));
        }
        assert(elements@ =~= self@);
        Array { elements }
    }
}

impl<T: PartialEq> PartialEq for Array<T> {
    /// Equal lengths, and elements equal pairwise in index order.
    fn eq(&self, other: &Self) -> (r: bool) {
        let n = self.elements.len();
        if n != other.elements.len() {
            return false;
        }
        let mut i: usize = 0;
        while i < n
            invariant
                n == self@.len(),
                n == other@.len(),
                i <= n,
                T::obeys_eq_spec() ==> forall|j: int|
                    0 <= j < i ==> #[trigger] self@[j].eq_spec(&other@[j]),
            decreases n - i,
        {
            let same = self.elements[i] == other.elements[i];
            if !same {
                proof {
                    if T::obeys_eq_spec() {
                        assert(!self@[i as int].eq_spec(&other@[i as int]));
                    }
                }
                return false;
            }
            i = i + 1;
        }
        true
    }
}

impl<T: PartialEq> vstd::std_specs::cmp::PartialEqSpecImpl for Array<T> {
    open spec fn obeys_eq_spec() -> bool {
        T::obeys_eq_spec()
    }

    open spec fn eq_spec(&self, other: &Array<T>) -> bool {
        &&& self@.len() == other@.len()
        &&& forall|i: int| 0 <= i < self@.len() ==> #[trigger] self@[i].eq_spec(&other@[i])
    }
}

/// A clone compares equal to the array it was taken from, for elements whose
/// `==` is equality of values; the clone's storage is its own, as it is a
/// separate owned value.
pub proof fn lemma_clone_equal<T: PartialEq>(a: Array<T>, c: Array<T>)
    requires
        c@ == a@,
        vstd::laws_eq::obeys_concrete_eq::<T>(),
    ensures
        a.eq_spec(&c),
{
    reveal(vstd::laws_eq::obeys_concrete_eq);
}

impl<T> From<Vec<T>> for Array<T> {
    /// Takes over the elements of a growable buffer.
    fn from(elements: Vec<T>) -> (r: Array<T>)
        ensures
            r@ == elements@,
    {
        Array { elements }
    }
}

impl<T> vstd::std_specs::convert::FromSpecImpl<Vec<T>> for Array<T> {
    open spec fn obeys_from_spec() -> bool {
        true
    }

    closed spec fn from_spec(v: Vec<T>) -> Array<T> {
        Array { elements: v }
    }
}

impl<T> From<Array<T>> for Vec<T> {
    /// Hands the elements of the array over to a growable buffer.
    fn from(array: Array<T>) -> (r: Vec<T>)
        ensures
            r@ == array@,
    {
        array.elements
    }
}

impl<T> vstd::std_specs::convert::FromSpecImpl<Array<T>> for Vec<T> {
    open spec fn obeys_from_spec() -> bool {
        true
    }

    closed spec fn from_spec(a: Array<T>) -> Vec<T> {
        a.elements
    }
}

} // verus!
