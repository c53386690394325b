use vstd::prelude::*;
use vstd::std_specs::cmp::PartialEqSpec;

verus! {

/// Fixed-capacity list. Exists so config data needs no allocator.
///
/// Only the first `len` elements are live; the tail carries no meaning.
pub struct BoundedList<T, const N: usize> {
    items: [T; N],
    len: usize,
}

/// The list already holds as many elements as it can.
#[derive(Debug, Clone, Copy, PartialEq, Eq, Structural)]
pub struct CapacityError;

impl CapacityError {
    pub fn message(&self) -> (m: &'static str)
        ensures
            m@ == "bounded list capacity exceeded"@,
    {
        "bounded list capacity exceeded"
    }
}

impl<T, const N: usize> View for BoundedList<T, N> {
    type V = Seq<T>;

    /// The live elements.
    closed spec fn view(&self) -> Seq<T> {
        self.items@.take(self.len as int)
    }
}

impl<T, const N: usize> BoundedList<T, N> {
    #[verifier::type_invariant]
    spec fn fits(self) -> bool {
        self.len <= N
    }

    /// The first `len` elements of a filled buffer; the rest become dead tail.
    pub fn from_array(items: [T; N], len: usize) -> (r: Result<Self, CapacityError>)
        ensures
            r is Ok <==> len <= N,
            r matches Ok(list) ==> list@ == items@.take(len as int),
    {
        if len > N {
            return Err(CapacityError);
        }
        Ok(BoundedList { items, len })
    }

    /// Appends `item`, or leaves the list alone when it is full.
    pub fn push(&mut self, item: T) -> (r: Result<(), CapacityError>)
        ensures
            r is Ok <==> old(self)@.len() < N,
            final(self)@ == if r is Ok {
                old(self)@.push(item)
            } else {
                old(self)@
            },
    {
        proof {
            use_type_invariant(&*self);
        }
        if self.len == N {
            return Err(CapacityError);
        }
        let at: usize = self.len;
        self.items[at] = item;
        self.len = at + 1;
        Ok(())
    }

    pub fn len(&self) -> (n: usize)
        ensures
            n == self@.len(),
            n <= N,
    {
        proof {
            use_type_invariant(self);
        }
        self.len
    }

    pub fn is_empty(&self) -> (b: bool)
        ensures
            b == (self@.len() == 0),
    {
        proof {
            use_type_invariant(self);
        }
        self.len == 0
    }

    pub fn as_slice(&self) -> (s: &[T])
        ensures
            s@ == self@,
            s@.len() <= N,
    {
        proof {
            use_type_invariant(self);
        }
        vstd::slice::slice_subrange(self.items.as_slice(), 0, self.len)
    }
}

impl<T: Copy + Default, const N: usize> BoundedList<T, N> {
    pub fn new() -> (list: Self)
        ensures
            list@ == Seq::<T>::empty(),
    {
        BoundedList { items: [T::default(); N], len: 0 }
    }

    /// Fails exactly when the slice is longer than the capacity.
    pub fn from_slice(slice: &[T]) -> (r: Result<Self, CapacityError>)
        ensures
            r is Ok <==> slice@.len() <= N,
            r matches Ok(list) ==> list@ == slice@,
    {
        if slice.len() > N {
            return Err(CapacityError);
        }
        let mut list = Self::new();
        let mut i: usize = 0;
        while i < slice.len()
            invariant
                i <= slice@.len() <= N,
                list@ == slice@.take(i as int),
            decreases slice.len() - i,
        {
            let pushed = list.push(slice[i]);
            proof {
                assert(slice@.take(i + 1) == slice@.take(i as int).push(slice@[i as int]));
            }
            i = i + 1;
        }
        proof {
            assert(slice@.take(i as int) == slice@);
        }
        Ok(list)
    }
}

impl<T: Copy, const N: usize> Clone for BoundedList<T, N> {
    fn clone(&self) -> (list: Self)
        ensures
            list == *self,
    {
        *self
    }
}

impl<T: Copy, const N: usize> Copy for BoundedList<T, N> {

}

impl<T: Copy + Default, const N: usize> Default for BoundedList<T, N> {
    fn default() -> (list: Self)
        ensures
            list@ == Seq::<T>::empty(),
    {
        Self::new()
    }
}

/// `core::fmt::Formatter`, carried through to the elements and never looked
/// into.
#[verifier::external_type_specification]
#[verifier::external_body]
pub struct ExFormatter<'a>(core::fmt::Formatter<'a>);

/// `core::fmt::Error`, handed back as it came.
#[verifier::external_type_specification]
#[verifier::external_body]
pub struct ExFormatError(core::fmt::Error);

/// Calls `<[T] as core::fmt::Debug>::fmt`, which shows the elements of a slice
/// as a list. Nothing is claimed of the call: what reaches the formatter's
/// output, and whether that output takes it, is up to the element type and to
/// whoever made the formatter.
#[verifier::external_body]
fn show_slice<T: core::fmt::Debug>(items: &[T], f: &mut core::fmt::Formatter<'_>) -> (r: Result<
    (),
    core::fmt::Error,
>) {
    core::fmt::Debug::fmt(items, f)
}

/// Only the live elements are shown, as a slice of them would be.
impl<T: core::fmt::Debug, const N: usize> core::fmt::Debug for BoundedList<T, N> {
    fn fmt(&self, f: &mut core::fmt::Formatter<'_>) -> (r: Result<(), core::fmt::Error>) {
        show_slice(self.as_slice(), f)
    }
}

impl<T, const N: usize> core::ops::Deref for BoundedList<T, N> {
    type Target = [T];

    fn deref(&self) -> (s: &[T])
        ensures
            s@ == self@,
    {
        self.as_slice()
    }
}

/// Two lists with equal live elements are equal, whatever their tails hold.
impl<T: PartialEq, const N: usize> PartialEq for BoundedList<T, N> {
    fn eq(&self, other: &Self) -> (b: bool) {
        let left = self.as_slice();
        let right = other.as_slice();
        if left.len() != right.len() {
            return false;
        }
        let mut i: usize = 0;
        while i < left.len()
            invariant
                left@ == self@,
                right@ == other@,
                i <= left@.len() == right@.len(),
                T::obeys_eq_spec() ==> forall|k: int|
                    0 <= k < i ==> (#[trigger] left@[k]).eq_spec(&right@[k]),
            decreases left.len() - i,
        {
            if left[i] != right[i] {
                return false;
            }
            i = i + 1;
        }
        true
    }
}

impl<T: PartialEq, const N: usize> vstd::std_specs::cmp::PartialEqSpecImpl for BoundedList<T, N> {
    open spec fn obeys_eq_spec() -> bool {
        T::obeys_eq_spec()
    }

    open spec fn eq_spec(&self, other: &Self) -> bool {
        &&& self@.len() == other@.len()
        &&& forall|k: int| 0 <= k < self@.len() ==> (#[trigger] self@[k]).eq_spec(&other@[k])
    }
}

/// Two lists are equal exactly when they are equally long and each live
/// element of one equals its counterpart in the other.
pub proof fn lists_are_equal_element_by_element<T: PartialEq, const N: usize>(
    a: BoundedList<T, N>,
    b: BoundedList<T, N>,
)
    ensures
        a.eq_spec(&b) ==> a@.len() == b@.len(),
        a@.len() != b@.len() ==> !a.eq_spec(&b),
        a@.len() == b@.len() ==> (a.eq_spec(&b) <==> forall|k: int|
            0 <= k < a@.len() ==> (#[trigger] a@[k]).eq_spec(&b@[k])),
{
}

} // verus!
