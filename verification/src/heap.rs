//! A self-contained heap for the objects of the virtual machine.
//!
//! Every object lives behind a reference-counted pointer, so a handle stays
//! valid however the heap's storage moves. A slot whose object is referenced
//! by the heap alone is free, and is reused or dropped on the next allocation.

use std::sync::Arc;
use vstd::prelude::*;

verus! {

/// The number of objects a heap made by `Heap::default` can hold.
pub const DEFAULT_HEAP_SIZE: usize = 512;

/// The errors of the heap.
#[derive(Debug, PartialEq, Eq)]
pub enum HeapError {
    /// There was no room for one more object.
    OutOfMemoryError { capacity: usize },
    /// A handle's index lies beyond the heap.
    IllegalHandleError { handle: String, capacity: usize },
    /// A handle points to a slot that holds no object.
    DanglingHandleError { handle: String },
}

/// A handle to an object on the heap: a shared pointer to it.
#[derive(Debug)]
pub struct Handle<T> {
    object: Arc<T>,
}

impl<T> Handle<T> {
    /// The object behind the handle.
    pub closed spec fn obj(&self) -> T {
        *self.object
    }


    /// Two handles to equal objects are equal values; whether they point to
    /// the one same object is what `same_object` tells.
    pub proof fn lemma_ext(&self, other: &Handle<T>)
        requires
            self.obj() == other.obj(),
        ensures
            *self == *other,
    {
    }

    /// Returns the object behind the handle.
    pub fn get(&self) -> (r: &T)
        ensures
            *r == self.obj(),
    {
        &*self.object
    }

    /// Returns a second handle to the same object.
    pub fn share(&self) -> (r: Handle<T>)
        ensures
            r == *self,
    {
        Handle { object: Arc::clone(&self.object) }
    }

    /// Whether two handles point to the one same object.
    pub fn same_object(&self, other: &Handle<T>) -> (r: bool)
        ensures
            r ==> self.obj() == other.obj(),
    {
        arc_ptr_eq(&self.object, &other.object)
    }
}

impl<T> Clone for Handle<T> {
    fn clone(&self) -> (r: Self)
        ensures
            r.obj() == self.obj(),
    {
        self.share()
    }
}

/// A handle is a greater value than the object behind it, for termination.
pub broadcast proof fn lemma_handle_decreases<T>(h: Handle<T>)
    ensures
        #[trigger] decreases_to!(h => h.obj()),
{
}

/// `std::sync::Arc::ptr_eq`: two pointers that point to the same allocation
/// point to the same value. Whether two pointers to equal values share an
/// allocation is not stated.
#[verifier::external_body]
fn arc_ptr_eq<T>(a: &Arc<T>, b: &Arc<T>) -> (r: bool)
    ensures
        r ==> *a == *b,
{
    Arc::ptr_eq(a, b)
}

/// `std::sync::Arc::strong_count`: the number of pointers to the allocation,
/// which is at least one while the argument lives. The number depends on
/// pointers held elsewhere in the program, so nothing more is stated.
#[verifier::external_body]
fn arc_strong_count<T>(a: &Arc<T>) -> (r: usize)
    ensures
        r >= 1,
{
    Arc::strong_count(a)
}

/// The heap: a bounded list of shared objects.
#[derive(Debug)]
pub struct Heap<T> {
    data: Vec<Arc<T>>,
    max_size: usize,
}

/// The objects of a list of pointers.
pub open spec fn arcs_view<T>(s: Seq<Arc<T>>) -> Seq<T> {
    Seq::new(s.len(), |i: int| *s[i])
}

/// `p` is the first free slot: the first whose count of handles is one.
pub open spec fn is_first_free(counts: Seq<usize>, p: int) -> bool {
    &&& 0 <= p < counts.len()
    &&& counts[p] == 1
    &&& forall|k: int| 0 <= k < p ==> counts[k] != 1
}

/// Where some slot is free, there is a first free one.
pub proof fn lemma_first_free_exists(counts: Seq<usize>, k: int)
    requires
        0 <= k < counts.len(),
        counts[k] == 1,
    ensures
        exists|p: int| is_first_free(counts, p),
    decreases k,
{
    if exists|j: int| 0 <= j < k && counts[j] == 1 {
        let j = choose|j: int| 0 <= j < k && counts[j] == 1;
        lemma_first_free_exists(counts, j);
    } else {
        assert(is_first_free(counts, k));
    }
}

/// What an allocation of `obj` did, given the number of handles to each
/// stored object (`counts`; one for a slot no handle outside the heap refers
/// to):
///
/// - where a slot is free, the object takes the first free one, and the
///   slots before it are unchanged;
/// - where none is, it is appended, or, on a full heap, the allocation fails
///   and the heap is unchanged;
/// - an object some handle outside the heap refers to stays on the heap;
/// - the heap then holds the new object and old ones only.
pub open spec fn allocation<T>(before: Heap<T>, after: Heap<T>, obj: T, counts: Seq<usize>, r: Result<
    Handle<T>,
    HeapError,
>) -> bool {
    let n = before.objects().len();
    &&& forall|p: int| #[trigger] is_first_free(counts, p) ==> {
        &&& r matches Ok(h) && h.obj() == obj
        &&& p < after.objects().len() <= n
        &&& after.objects()[p] == obj
        &&& forall|k: int| 0 <= k < p ==> after.objects()[k] == before.objects()[k]
    }
    &&& (forall|k: int| 0 <= k < n ==> counts[k] != 1) ==> if n < before.max() {
        r matches Ok(h) && h.obj() == obj && after.objects() == before.objects().push(obj)
    } else {
        r == Err::<Handle<T>, HeapError>(HeapError::OutOfMemoryError { capacity: before.max() as usize })
            && after.objects() == before.objects()
    }
    &&& forall|k: int| 0 <= k < n && counts[k] != 1 ==> after.objects().contains(#[trigger] before.objects()[k])
    &&& forall|o: T| #[trigger] after.objects().contains(o) ==> o == obj || before.objects().contains(o)
    &&& match r {
        Ok(h) => h.obj() == obj && after.objects().contains(obj) && after.objects().len() <= n + 1,
        Err(e) => e == HeapError::OutOfMemoryError { capacity: before.max() as usize } && after.objects()
            == before.objects() && n >= before.max(),
    }
}

impl<T> Heap<T> {
    /// The objects on the heap, in storage order.
    pub closed spec fn objects(&self) -> Seq<T> {
        arcs_view(self.data@)
    }

    /// The greatest number of objects the heap holds.
    pub closed spec fn max(&self) -> nat {
        self.max_size as nat
    }

    /// The heap holds no more objects than it may.
    pub closed spec fn wf(&self) -> bool {
        self.data@.len() <= self.max_size
    }

    /// Creates an empty heap that holds at most `max_size` objects.
    pub fn new(max_size: usize) -> (r: Heap<T>)
        ensures
            r.wf(),
            r.objects() == Seq::<T>::empty(),
            r.max() == max_size,
    {
        let h = Heap { data: Vec::new(), max_size };
        assert(h.objects() =~= Seq::<T>::empty());
        h
    }

    /// The number of handles to each stored object, the heap's own among
    /// them, as `Arc::strong_count` reports them: a slot whose count is one
    /// is referenced by the heap alone, and is free.
    fn strong_counts(&self) -> (r: Vec<usize>)
        ensures
            r@.len() == self.objects().len(),
            forall|i: int| 0 <= i < r@.len() ==> #[trigger] r@[i] >= 1,
    {
        let mut counts: Vec<usize> = Vec::new();
        let mut i: usize = 0;
        while i < self.data.len()
            invariant
                i <= self.data@.len(),
                counts@.len() == i,
                forall|k: int| 0 <= k < i ==> #[trigger] counts@[k] >= 1,
            decreases self.data@.len() - i,
        {
            counts.push(arc_strong_count(&self.data[i]));
            i = i + 1;
        }
        counts
    }

    /// Puts the object on the heap, given the number of handles to each
    /// stored object (`counts`, one for a free slot), and returns a handle
    /// to it; see `allocation`.
    ///
    /// The object takes the first free slot, and the free slots after it
    /// are dropped as the scan meets them. Where no slot is free, it is
    /// appended, unless the heap is full.
    pub fn allocate_with(&mut self, obj: T, counts: Vec<usize>) -> (r: Result<Handle<T>, HeapError>)
        requires
            old(self).wf(),
            counts@.len() == old(self).objects().len(),
        ensures
            final(self).wf(),
            final(self).max() == old(self).max(),
            allocation(*old(self), *final(self), obj, counts@, r),
    {
        let elem = Arc::new(obj);
        let handle = Handle { object: Arc::clone(&elem) };
        let ghost old_objs = self.objects();
        let ghost c0 = counts@;
        let n: usize = self.data.len();
        let mut cnt = counts;
        let mut pending: Option<Arc<T>> = Some(elem);
        let ghost mut placed: int = 0;
        let ghost mut orig: Seq<int> = Seq::new(n as nat, |j: int| j);
        let mut i: usize = 0;
        proof {
            assert forall|k: int| 0 <= k < n && c0[k] != 1 implies orig.contains(k) by {
                assert(orig[k] == k);
            }
        }
        while i < self.data.len()
            invariant
                self.max_size == old(self).max_size,
                n == old_objs.len(),
                old_objs == old(self).objects(),
                c0.len() == n,
                i <= n,
                self.data@.len() <= n,
                cnt@.len() == self.data@.len(),
                orig.len() == self.data@.len(),
                *handle.object == obj,
                pending is Some ==> *pending->0 == obj && self.objects() == old_objs && cnt@ == c0
                    && self.data@.len() == n && (forall|k: int| 0 <= k < i ==> c0[k] != 1)
                    && (forall|j: int| 0 <= j < n ==> orig[j] == j),
                pending is None ==> {
                    &&& 0 <= placed < i
                    &&& placed < self.data@.len()
                    &&& self.objects()[placed] == obj
                    &&& is_first_free(c0, placed)
                    &&& orig[placed] == -1
                    &&& forall|k: int| 0 <= k < placed ==> orig[k] == k
                    &&& self.data@.len() <= n
                },
                forall|j: int| 0 <= j < orig.len() && orig[j] != -1 ==> 0 <= orig[j] < n && self.objects()[j]
                    == old_objs[orig[j]] && cnt@[j] == c0[orig[j]],
                forall|j: int| 0 <= j < orig.len() && orig[j] == -1 ==> pending is None && j == placed,
                forall|k: int| 0 <= k < n && c0[k] != 1 ==> orig.contains(k),
            decreases n - i,
        {
            if cnt[i] == 1 {
                proof {
                    assert(orig[i as int] != -1) by {
                        if orig[i as int] == -1 {
                            assert(i as int == placed);
                        }
                    }
                }
                match pending {
                    Some(e) => {
                        let ghost before = self.objects();
                        self.data.set(i, e);
                        pending = None;
                        proof {
                            placed = i as int;
                            assert(orig[i as int] == i as int);
                            assert(is_first_free(c0, placed));
                            orig = orig.update(i as int, -1);
                            assert(self.objects() =~= before.update(i as int, obj));
                            assert forall|k: int| 0 <= k < n && c0[k] != 1 implies orig.contains(k) by {
                                assert(orig[k] == k);
                            }
                        }
                    },
                    None => {
                        let ghost before = self.objects();
                        let ghost borig = orig;
                        let ghost last = self.data@.len() - 1;
                        let _ = self.data.swap_remove(i);
                        let _ = cnt.swap_remove(i);
                        proof {
                            orig = borig.update(i as int, borig[last]).drop_last();
                            assert(self.objects() =~= before.update(i as int, before[last]).drop_last());
                            assert forall|k: int| 0 <= k < n && c0[k] != 1 implies orig.contains(k) by {
                                let j = choose|j: int| 0 <= j < borig.len() && borig[j] == k;
                                if j == i {
                                    assert(c0[k] == 1);
                                } else if j == last {
                                    assert(orig[i as int] == k);
                                } else {
                                    assert(orig[j] == k);
                                }
                            }
                        }
                    },
                }
            }
            i = i + 1;
        }
        match pending {
            Some(e) => {
                if self.data.len() >= self.max_size {
                    proof {
                        assert(forall|k: int| 0 <= k < n ==> c0[k] != 1);
                        assert forall|k: int| 0 <= k < n && c0[k] != 1 implies self.objects().contains(
                            #[trigger] old_objs[k],
                        ) by {
                            assert(self.objects()[k] == old_objs[k]);
                        }
                    }
                    return Err(HeapError::OutOfMemoryError { capacity: self.max_size });
                }
                let ghost before = self.objects();
                self.data.push(e);
                proof {
                    assert(self.objects() =~= old_objs.push(obj));
                    assert(forall|k: int| 0 <= k < n ==> c0[k] != 1);
                    assert forall|k: int| 0 <= k < n && c0[k] != 1 implies self.objects().contains(
                        #[trigger] old_objs[k],
                    ) by {
                        assert(self.objects()[k] == old_objs[k]);
                    }
                    assert forall|o: T| #[trigger] self.objects().contains(o) implies o == obj || old_objs.contains(o) by {
                        let j = choose|j: int| 0 <= j < self.objects().len() && self.objects()[j] == o;
                        if j < n {
                            assert(old_objs[j] == o);
                        }
                    }
                    assert(self.objects()[n as int] == obj);
                }
                Ok(handle)
            },
            None => {
                proof {
                    assert forall|k: int| 0 <= k < n && c0[k] != 1 implies self.objects().contains(old_objs[k]) by {
                        let j = choose|j: int| 0 <= j < orig.len() && orig[j] == k;
                        assert(self.objects()[j] == old_objs[k]);
                    }
                    assert forall|o: T| #[trigger] self.objects().contains(o) implies o == obj || old_objs.contains(o) by {
                        let j = choose|j: int| 0 <= j < self.objects().len() && self.objects()[j] == o;
                        if orig[j] != -1 {
                            assert(old_objs[orig[j]] == o);
                        }
                    }
                    assert(self.objects().contains(obj)) by {
                        assert(self.objects()[placed] == obj);
                    }
                    assert forall|k: int| 0 <= k < placed implies self.objects()[k] == old_objs[k] by {
                        assert(orig[k] == k);
                    }
                    assert forall|p: int| is_first_free(c0, p) implies p == placed by {
                        if p < placed {
                            assert(c0[p] != 1);
                        } else if p > placed {
                            assert(c0[placed] != 1);
                        }
                    }
                }
                Ok(handle)
            },
        }
    }

    /// Puts the object on the heap and returns a handle to it.
    ///
    /// The object takes the first slot that no handle outside the heap
    /// refers to; the free slots after it are dropped. Where no slot is
    /// free, it is appended, unless the heap is full. Which slots are free
    /// depends on the handles the rest of the program holds: the counts are
    /// read with `Arc::strong_count` and handed to `allocate_with`.
    pub fn allocate(&mut self, obj: T) -> (r: Result<Handle<T>, HeapError>)
        requires
            old(self).wf(),
        ensures
            final(self).wf(),
            final(self).max() == old(self).max(),
            old(self).objects().len() < old(self).max() ==> r is Ok,
            match r {
                Ok(h) => {
                    &&& h.obj() == obj
                    &&& final(self).objects().contains(obj)
                    &&& final(self).objects().len() <= old(self).objects().len() + 1
                    &&& forall|o: T|
                        #[trigger] final(self).objects().contains(o) ==> o == obj
                            || old(self).objects().contains(o)
                },
                Err(e) => {
                    &&& e == HeapError::OutOfMemoryError { capacity: old(self).max() as usize }
                    &&& final(self).objects() == old(self).objects()
                    &&& old(self).objects().len() >= old(self).max()
                },
            },
            exists|counts: Seq<usize>|
                #![trigger allocation(*old(self), *final(self), obj, counts, r)]
                counts.len() == old(self).objects().len() && (forall|i: int| 0 <= i < counts.len() ==> counts[i] >= 1)
                    && allocation(*old(self), *final(self), obj, counts, r),
    {
        let counts = self.strong_counts();
        let ghost c = counts@;
        let r = self.allocate_with(obj, counts);
        proof {
            assert(allocation(*old(self), *self, obj, c, r));
            if exists|k: int| 0 <= k < c.len() && c[k] == 1 {
                let k = choose|k: int| 0 <= k < c.len() && c[k] == 1;
                lemma_first_free_exists(c, k);
            }
        }
        r
    }

    /// The number of occupied slots.
    pub fn len(&self) -> (r: usize)
        ensures
            r == self.objects().len(),
    {
        self.data.len()
    }

    /// The greatest number of objects the heap holds.
    pub fn capacity(&self) -> (r: usize)
        ensures
            r == self.max(),
    {
        self.max_size
    }
}

impl<T> Default for Heap<T> {
    fn default() -> (r: Heap<T>)
        ensures
            r.wf(),
            r.objects() == Seq::<T>::empty(),
            r.max() == DEFAULT_HEAP_SIZE,
    {
        Heap::new(DEFAULT_HEAP_SIZE)
    }
}

/// A heap never holds more objects than its capacity: `Heap::new` makes a
/// heap of which this holds, and `allocate` keeps it.
pub proof fn law_heap_within_capacity<T>(h: Heap<T>)
    requires
        h.wf(),
    ensures
        h.objects().len() <= h.max(),
{
}

} // verus!
