//! The dynamic array itself.
use vstd::prelude::*;

use crate::capacity::{
    deleted_capacity, grown_capacity, initial_capacity, is_pow2, lemma_pow2_double,
    lemma_pow2_half, lemma_removed_capacity_grows, lemma_smallest_pow2, popped_capacity,
    removed_capacity,
};

verus! {

/// Capacity chosen when no hint is given.
pub const DEFAULT_CAPACITY: usize = 16;

/// Largest number of slots whose `i32` buffer fits in `isize::MAX` bytes.
pub const MAX_CAPACITY: usize = usize::MAX / 8;

/// `s` with every element equal to `x` left out, the others in their order.
pub open spec fn without(s: Seq<i32>, x: i32) -> Seq<i32>
    decreases s.len(),
{
    if s.len() == 0 {
        s
    } else if s[0] == x {
        without(s.skip(1), x)
    } else {
        seq![s[0]] + without(s.skip(1), x)
    }
}

/// Leaving elements out never lengthens a sequence.
pub proof fn lemma_without_len(s: Seq<i32>, x: i32)
    ensures
        without(s, x).len() <= s.len(),
    decreases s.len(),
{
    if s.len() > 0 {
        lemma_without_len(s.skip(1), x);
    }
}

/// How many elements of `s` equal `x`.
pub open spec fn occurrences(s: Seq<i32>, x: i32) -> nat {
    (s.len() - without(s, x).len()) as nat
}

/// A growable array of `i32` values.
///
/// The elements live at the low end of a buffer of `capacity` slots that the
/// array allocates and replaces itself; the slots past `size` hold no element.
pub struct Vector {
    data: Vec<i32>,
    size: usize,
    capacity: usize,
}

impl View for Vector {
    type V = Seq<i32>;

    /// The elements, in order.
    closed spec fn view(&self) -> Seq<i32> {
        self.data@.subrange(0, self.size as int)
    }
}

impl Vector {
    /// Number of slots in the buffer.
    pub closed spec fn spec_capacity(&self) -> nat {
        self.capacity as nat
    }

    /// The buffer has `capacity` slots, a power of two whose `i32` buffer an
    /// `isize` can measure in bytes, and holds the `size` elements.
    pub closed spec fn wf(&self) -> bool {
        &&& self.data@.len() == self.capacity
        &&& self.size <= self.capacity
        &&& is_pow2(self.capacity as nat)
        &&& self.capacity <= MAX_CAPACITY
    }

    proof fn lemma_view_len(&self)
        requires
            self.wf(),
        ensures
            self@.len() == self.size,
    {
    }

    /// A well-formed array holds at most `capacity` elements, and its
    /// capacity is a power of two within `MAX_CAPACITY`.
    pub proof fn lemma_wf(&self)
        requires
            self.wf(),
        ensures
            self@.len() <= self.spec_capacity(),
            is_pow2(self.spec_capacity()),
            self.spec_capacity() <= MAX_CAPACITY,
    {
    }

    /// Creates an empty array. A hint of 0 gives 16 slots; any other hint
    /// gives the smallest power of two at least as large.
    pub fn new(initial_capacity_hint: usize) -> (r: Vector)
        requires
            initial_capacity_hint <= MAX_CAPACITY / 2 + 1,
        ensures
            r.wf(),
            r@ == Seq::<i32>::empty(),
            initial_capacity(initial_capacity_hint as nat, r.spec_capacity()),
    {
        let capacity: usize = if initial_capacity_hint > 0 {
            let mut c: usize = 1;
            while c < initial_capacity_hint
                invariant
                    is_pow2(c as nat),
                    c == 1 || c / 2 < initial_capacity_hint,
                    0 < initial_capacity_hint <= MAX_CAPACITY / 2 + 1,
                    c < 2 * initial_capacity_hint,
                decreases 2 * initial_capacity_hint - c,
            {
                proof {
                    lemma_pow2_double(c as nat);
                }
                c = c * 2;
            }
            proof {
                if c > 1 {
                    lemma_pow2_half(c as nat);
                }
                lemma_smallest_pow2(initial_capacity_hint as nat, c as nat);
            }
            c
        } else {
            proof {
                crate::capacity::lemma_pow2_16();
            }
            DEFAULT_CAPACITY
        };
        let r = Vector { data: vec![0i32; capacity], size: 0, capacity };
        assert(r@ =~= Seq::<i32>::empty());
        r
    }

    /// Number of elements.
    pub fn size(&self) -> (r: usize)
        requires
            self.wf(),
        ensures
            r == self@.len(),
            r <= self.spec_capacity(),
    {
        self.size
    }

    /// Number of slots in the buffer.
    pub fn capacity(&self) -> (r: usize)
        ensures
            r == self.spec_capacity(),
            self.wf() ==> is_pow2(r as nat) && self@.len() <= r && r <= MAX_CAPACITY,
    {
        self.capacity
    }

    /// Whether the array holds no element.
    pub fn is_empty(&self) -> (r: bool)
        requires
            self.wf(),
        ensures
            r == (self@.len() == 0),
    {
        self.size == 0
    }

    /// The element at `index`.
    pub fn at(&self, index: usize) -> (r: i32)
        requires
            self.wf(),
            index < self@.len(),
        ensures
            r == self@[index as int],
    {
        self.data[index]
    }

    /// Moves the elements into a freshly allocated buffer of `new_capacity`
    /// slots, which replaces the old one.
    fn resize(&mut self, new_capacity: usize)
        requires
            old(self).size <= new_capacity,
            old(self).size <= old(self).data@.len(),
        ensures
            final(self).data@.len() == new_capacity,
            final(self).capacity == new_capacity,
            final(self).size == old(self).size,
            final(self)@ == old(self)@,
    {
        let mut new_data = vec![0i32; new_capacity];
        let mut i: usize = 0;
        while i < self.size
            invariant
                new_data@.len() == new_capacity,
                i <= self.size,
                self.size <= new_capacity,
                self.size <= self.data@.len(),
                forall|j: int| 0 <= j < i ==> new_data@[j] == self.data@[j],
            decreases self.size - i,
        {
            new_data.set(i, self.data[i]);
            i = i + 1;
        }
        let ghost before = self@;
        self.data = new_data;
        self.capacity = new_capacity;
        assert(self@ =~= before);
    }

    /// Appends `item`, doubling the capacity first when the buffer is full.
    pub fn push(&mut self, item: i32)
        requires
            old(self).wf(),
            grown_capacity(old(self)@.len(), old(self).spec_capacity()) <= MAX_CAPACITY,
        ensures
            final(self).wf(),
            final(self)@ == old(self)@.push(item),
            final(self).spec_capacity() == grown_capacity(old(self)@.len(), old(self).spec_capacity()),
    {
        if self.size == self.capacity {
            proof {
                lemma_pow2_double(self.capacity as nat);
            }
            self.resize(self.capacity * 2);
        }
        let ghost before = self@;
        self.data.set(self.size, item);
        self.size = self.size + 1;
        assert(self@ =~= before.push(item));
    }
    /// Inserts `item` at `index`, moving the elements from `index` on one
    /// slot to the right; doubles the capacity first when the buffer is full.
    /// Only an index of an existing element is accepted, so this never appends.
    pub fn insert(&mut self, index: usize, item: i32)
        requires
            old(self).wf(),
            index < old(self)@.len(),
            grown_capacity(old(self)@.len(), old(self).spec_capacity()) <= MAX_CAPACITY,
        ensures
            final(self).wf(),
            final(self)@ == old(self)@.insert(index as int, item),
            final(self).spec_capacity() == grown_capacity(old(self)@.len(), old(self).spec_capacity()),
    {
        if self.size == self.capacity {
            proof {
                lemma_pow2_double(self.capacity as nat);
            }
            self.resize(self.capacity * 2);
        }
        let ghost s = self@;
        let ghost cap = self.capacity;
        let mut i: usize = self.size;
        while i > index
            invariant
                self.wf(),
                self.size < self.capacity,
                self.capacity == cap,
                s.len() == self.size,
                index <= i <= self.size,
                forall|j: int| 0 <= j < i ==> self.data@[j] == s[j],
                forall|j: int| i < j <= self.size ==> self.data@[j] == s[j - 1],
            decreases i,
        {
            let v = self.data[i - 1];
            self.data.set(i, v);
            i = i - 1;
        }
        self.data.set(index, item);
        self.size = self.size + 1;
        assert(self@ =~= s.insert(index as int, item));
    }

    /// Inserts `item` in front, as `insert(0, item)` does; the array must
    /// not be empty.
    pub fn prepend(&mut self, item: i32)
        requires
            old(self).wf(),
            old(self)@.len() > 0,
            grown_capacity(old(self)@.len(), old(self).spec_capacity()) <= MAX_CAPACITY,
        ensures
            final(self).wf(),
            final(self)@ == old(self)@.insert(0, item),
            final(self).spec_capacity() == grown_capacity(old(self)@.len(), old(self).spec_capacity()),
    {
        self.insert(0, item);
    }

    /// Removes and returns the last element, or `None` on an empty array.
    /// Halves the capacity when at most a quarter of a buffer above 16
    /// slots stays in use.
    pub fn pop(&mut self) -> (r: Option<i32>)
        requires
            old(self).wf(),
        ensures
            final(self).wf(),
            old(self)@.len() == 0 ==> r == None::<i32> && final(self)@ == old(self)@
                && final(self).spec_capacity() == old(self).spec_capacity(),
            old(self)@.len() > 0 ==> r == Some(old(self)@.last())
                && final(self)@ == old(self)@.drop_last()
                && final(self).spec_capacity() == popped_capacity(
                (old(self)@.len() - 1) as nat,
                old(self).spec_capacity(),
            ),
    {
        if self.is_empty() {
            return None;
        }
        let ghost s = self@;
        let value = self.data[self.size - 1];
        self.size = self.size - 1;
        assert(self@ =~= s.drop_last());
        if self.size <= self.capacity / 4 && self.capacity > 16 {
            proof {
                lemma_pow2_half(self.capacity as nat);
            }
            self.resize(self.capacity / 2);
        }
        Some(value)
    }

    /// Removes the element at `index`, moving the later ones one slot to the
    /// left. When at most a quarter of a buffer above 16 slots stays in use,
    /// the buffer is then replaced by one of twice the capacity.
    pub fn delete(&mut self, index: usize)
        requires
            old(self).wf(),
            index < old(self)@.len(),
            deleted_capacity((old(self)@.len() - 1) as nat, old(self).spec_capacity()) <= MAX_CAPACITY,
        ensures
            final(self).wf(),
            final(self)@ == old(self)@.remove(index as int),
            final(self).spec_capacity() == deleted_capacity(
                (old(self)@.len() - 1) as nat,
                old(self).spec_capacity(),
            ),
    {
        let ghost s = self@;
        let ghost cap = self.capacity;
        let mut i: usize = index;
        while i + 1 < self.size
            invariant
                self.wf(),
                s.len() == self.size,
                self.capacity == cap,
                index <= i < self.size,
                forall|j: int| 0 <= j < index ==> self.data@[j] == s[j],
                forall|j: int| index <= j < i ==> self.data@[j] == s[j + 1],
                forall|j: int| i < j < self.size ==> self.data@[j] == s[j],
            decreases self.size - i,
        {
            let v = self.data[i + 1];
            self.data.set(i, v);
            i = i + 1;
        }
        self.size = self.size - 1;
        assert(self@ =~= s.remove(index as int));
        if self.size <= self.capacity / 4 && self.capacity > 16 {
            proof {
                lemma_pow2_double(self.capacity as nat);
            }
            self.resize(self.capacity * 2);
        }
    }

    /// The index of the first element equal to `item`, or -1 when there is
    /// none.
    pub fn find(&self, item: i32) -> (r: isize)
        requires
            self.wf(),
        ensures
            r == -1 ==> forall|j: int| 0 <= j < self@.len() ==> self@[j] != item,
            r != -1 ==> 0 <= r < self@.len() && self@[r as int] == item
                && forall|j: int| 0 <= j < r ==> self@[j] != item,
    {
        let mut i: usize = 0;
        while i < self.size
            invariant
                self.wf(),
                i <= self.size,
                forall|j: int| 0 <= j < i ==> self@[j] != item,
            decreases self.size - i,
        {
            if self.data[i] == item {
                return i as isize;
            }
            i = i + 1;
        }
        -1
    }
    /// Deletes every element equal to `item`, scanning from the front: after
    /// a deletion the same index is examined again. Each deletion applies the
    /// capacity rule of `delete`.
    pub fn remove(&mut self, item: i32)
        requires
            old(self).wf(),
            removed_capacity(
                old(self)@.len(),
                old(self).spec_capacity(),
                occurrences(old(self)@, item),
            ) <= MAX_CAPACITY,
        ensures
            final(self).wf(),
            final(self)@ == without(old(self)@, item),
            final(self).spec_capacity() == removed_capacity(
                old(self)@.len(),
                old(self).spec_capacity(),
                occurrences(old(self)@, item),
            ),
    {
        let ghost s0 = self@;
        let ghost n = s0.len();
        let ghost target = removed_capacity(
            s0.len(),
            self.spec_capacity(),
            occurrences(s0, item),
        );
        proof {
            lemma_without_len(s0, item);
            assert(s0.subrange(0, n as int) =~= s0);
            assert(self@.subrange(0, 0) =~= Seq::<i32>::empty());
            assert(self@.subrange(0, self.size as int) =~= self@);
        }
        let mut i: usize = 0;
        let ghost mut j: int = 0;
        while i < self.size
            invariant
                self.wf(),
                0 <= j <= n,
                n == s0.len(),
                i <= self.size,
                self.size - i == n - j,
                self@.subrange(i as int, self.size as int) == s0.subrange(j, n as int),
                without(s0, item) == self@.subrange(0, i as int) + without(
                    s0.subrange(j, n as int),
                    item,
                ),
                without(s0.subrange(j, n as int), item).len() <= n - j,
                target == removed_capacity(
                    self@.len(),
                    self.spec_capacity(),
                    occurrences(s0.subrange(j, n as int), item),
                ),
                target <= MAX_CAPACITY,
            decreases n - j,
        {
            let ghost rest = s0.subrange(j, n as int);
            let ghost tail = s0.subrange(j + 1, n as int);
            let ghost before = self@;
            proof {
                assert(rest.skip(1) =~= tail);
                assert(rest[0] == before[i as int]);
                lemma_without_len(tail, item);
            }
            if self.data[i] == item {
                proof {
                    let m = occurrences(rest, item);
                    assert(m == occurrences(tail, item) + 1);
                    lemma_removed_capacity_grows(
                        (before.len() - 1) as nat,
                        deleted_capacity((before.len() - 1) as nat, self.spec_capacity()),
                        (m - 1) as nat,
                    );
                }
                self.delete(i);
                proof {
                    self.lemma_view_len();
                    assert(self@ == before.remove(i as int));
                    assert(self@.subrange(i as int, self.size as int) =~= tail);
                    assert(self@.subrange(0, i as int) =~= before.subrange(0, i as int));
                }
            } else {
                i = i + 1;
                proof {
                    assert(self@.subrange(i as int, self.size as int) =~= tail);
                    assert(self@.subrange(0, i as int) =~= before.subrange(0, i - 1) + seq![rest[0]]);
                }
            }
            proof {
                j = j + 1;
            }
        }
        proof {
            assert(s0.subrange(j, n as int) =~= Seq::<i32>::empty());
            assert(self@.subrange(0, i as int) =~= self@);
            assert(without(s0, item) =~= self@);
        }
    }
}

} // verus!
