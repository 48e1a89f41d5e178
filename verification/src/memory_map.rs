//! The memory map: an array of descriptors in a buffer that the firmware filled.
//!
//! The library works out where the descriptors are. The distance between two of
//! them is the descriptor size that the firmware reported, not the size of the
//! descriptor type: the firmware may extend descriptors.
use core::marker::PhantomData;

use vstd::arithmetic::div_mod::{
    lemma_div_minus_one, lemma_fundamental_div_mod, lemma_mod_sub_multiples_vanish,
};
use vstd::arithmetic::mul::{lemma_mul_inequality, lemma_mul_is_commutative};
use vstd::prelude::*;

use crate::pool::{free, freed, FreePool};
use crate::system::{Address, State, System};

verus! {

/// The address that lies `offset` bytes past `ptr`. Past the end of memory,
/// addresses start again at zero.
pub open spec fn past(ptr: Address, offset: int) -> Address {
    if ptr + offset <= usize::MAX {
        (ptr + offset) as usize
    } else {
        (ptr + offset - usize::MAX - 1) as usize
    }
}

/// The addresses of the descriptors in a buffer of `size` bytes at `ptr`, where
/// each descriptor takes `step` bytes.
pub open spec fn descriptors(ptr: Address, size: usize, step: usize) -> Seq<Address> {
    Seq::new((size / step) as nat, |i: int| past(ptr, i * step))
}

/// The first item of a sequence, if there is one.
pub open spec fn first(items: Seq<Address>) -> Option<Address> {
    if items.len() == 0 {
        None
    } else {
        Some(items[0])
    }
}

/// What is left of a sequence after its first item.
pub open spec fn rest(items: Seq<Address>) -> Seq<Address> {
    if items.len() == 0 {
        items
    } else {
        items.drop_first()
    }
}

/// The sequence that is left after `n` items have been taken.
pub open spec fn rest_after(items: Seq<Address>, n: nat) -> Seq<Address>
    decreases n,
{
    if n == 0 {
        items
    } else {
        rest(rest_after(items, (n - 1) as nat))
    }
}

/// A place in a memory map: the address of the next descriptor, and how many
/// bytes are left from there.
#[derive(Debug)]
struct Cursor {
    ptr: Address,
    memory_map_size: usize,
    descriptor_size: usize,
}

impl Cursor {
    #[verifier::type_invariant]
    spec fn whole(self) -> bool {
        &&& self.descriptor_size > 0
        &&& self.memory_map_size % self.descriptor_size == 0
    }

    /// The addresses of the descriptors that are left.
    spec fn left(&self) -> Seq<Address> {
        descriptors(self.ptr, self.memory_map_size, self.descriptor_size)
    }

    /// Steps over the next descriptor, and returns its address.
    fn next(&mut self) -> (item: Option<Address>)
        ensures
            item == first(old(self).left()),
            final(self).left() == rest(old(self).left()),
            item is None ==> *final(self) == *old(self),
            item is Some <==> old(self).memory_map_size > 0,
            item is Some ==> {
                &&& item->0 == old(self).ptr
                &&& final(self).ptr == past(old(self).ptr, old(self).descriptor_size as int)
                &&& final(self).memory_map_size == old(self).memory_map_size
                    - old(self).descriptor_size
                &&& final(self).descriptor_size == old(self).descriptor_size
            },
    {
        proof {
            use_type_invariant(&*self);
            lemma_left(self.ptr, self.memory_map_size, self.descriptor_size);
        }
        if self.memory_map_size == 0 {
            None
        } else {
            let result = self.ptr;
            self.ptr = self.ptr.wrapping_add(self.descriptor_size);
            self.memory_map_size = self.memory_map_size - self.descriptor_size;
            Some(result)
        }
    }
}

/// A step to the next descriptor leaves all descriptors but the first.
proof fn lemma_left(ptr: Address, size: usize, step: usize)
    requires
        step > 0,
        size % step == 0,
    ensures
        size == 0 ==> descriptors(ptr, size, step).len() == 0,
        size > 0 ==> {
            &&& size >= step
            &&& (size - step) as usize % step == 0
            &&& descriptors(ptr, size, step).len() > 0
            &&& descriptors(ptr, size, step)[0] == ptr
            &&& descriptors(ptr.wrapping_add(step), (size - step) as usize, step) == descriptors(
                ptr,
                size,
                step,
            ).drop_first()
        },
{
    if size > 0 {
        lemma_fundamental_div_mod(size as int, step as int);
        assert(size >= step) by (nonlinear_arith)
            requires
                size > 0,
                step > 0,
                size == step * (size as int / step as int) + 0,
        ;
        lemma_mod_sub_multiples_vanish(size as int, step as int);
        lemma_div_minus_one(size as int, step as int);
        let next = ptr.wrapping_add(step);
        let items = descriptors(ptr, size, step);
        let left = descriptors(next, (size - step) as usize, step);
        let count = items.len();
        assert forall|i: int| 0 <= i < left.len() implies #[trigger] left[i]
            == items.drop_first()[i] by {
            assert((i + 1) * step == i * step + step && 0 <= i * step && i * step + step <= step
                * count) by (nonlinear_arith)
                requires
                    0 <= i < count - 1,
                    step > 0,
            ;
        }
        assert(left =~= items.drop_first());
    }
}

/// Represents a UEFI memory map.
///
/// This is an array of descriptors, and supports the usual operations
/// (indexing/iteration).
#[derive(Debug)]
pub struct MemoryMap {
    ptr: Address,
    memory_map_size: usize,
    descriptor_size: usize,
}

impl View for MemoryMap {
    type V = Seq<Address>;

    /// The addresses of the descriptors.
    open spec fn view(&self) -> Seq<Address> {
        descriptors(self.ptr(), self.memory_map_size(), self.descriptor_size())
    }
}

impl MemoryMap {
    #[verifier::type_invariant]
    spec fn whole(self) -> bool {
        &&& self.ptr != 0
        &&& self.descriptor_size > 0
        &&& self.memory_map_size % self.descriptor_size == 0
    }

    /// The address of the buffer.
    pub closed spec fn ptr(&self) -> Address {
        self.ptr
    }

    /// How many bytes of the buffer the descriptors take.
    pub closed spec fn memory_map_size(&self) -> usize {
        self.memory_map_size
    }

    /// How many bytes a descriptor takes.
    pub closed spec fn descriptor_size(&self) -> usize {
        self.descriptor_size
    }

    /// Constructs a memory map.
    ///
    /// This takes ownership of the underlying buffer, and will deallocate it
    /// on drop.
    ///
    /// This is a low-level constructor: you most likely want to use
    /// `BootServices::memory_map()` instead. The arguments must specify a valid
    /// memory map.
    pub fn from_raw(ptr: Address, memory_map_size: usize, descriptor_size: usize) -> (map: Self)
        requires
            ptr != 0,
            descriptor_size > 0,
            memory_map_size % descriptor_size == 0,
        ensures
            map.ptr() == ptr,
            map.memory_map_size() == memory_map_size,
            map.descriptor_size() == descriptor_size,
    {
        MemoryMap { ptr, memory_map_size, descriptor_size }
    }

    /// Returns the number of entries in the memory map.
    pub fn len(&self) -> (len: usize)
        ensures
            len == self@.len(),
            len * self.descriptor_size() == self.memory_map_size(),
            self.ptr() != 0,
            self.descriptor_size() > 0,
            self.memory_map_size() % self.descriptor_size() == 0,
    {
        proof {
            use_type_invariant(self);
            lemma_fundamental_div_mod(self.memory_map_size as int, self.descriptor_size as int);
            lemma_mul_is_commutative(
                self.descriptor_size as int,
                self.memory_map_size as int / self.descriptor_size as int,
            );
        }
        self.memory_map_size / self.descriptor_size
    }

    /// Returns the address of the entry with the given index.
    pub fn index(&self, index: usize) -> (item: Address)
        requires
            index < self@.len(),
        ensures
            item == self@[index as int],
            self.ptr() + index * self.descriptor_size() <= usize::MAX ==> item == self.ptr() + index
                * self.descriptor_size(),
            self.ptr() + index * self.descriptor_size() > usize::MAX ==> item == self.ptr() + index
                * self.descriptor_size() - usize::MAX - 1,
    {
        let len = self.len();
        proof {
            use_type_invariant(self);
            lemma_mul_inequality(index as int, len as int, self.descriptor_size as int);
        }
        self.ptr.wrapping_add(index * self.descriptor_size)
    }

    /// Returns an iterator over the memory map.
    pub fn iter(&self) -> (iter: MemoryMapIter<'_>)
        ensures
            iter.ptr() == self.ptr(),
            iter.memory_map_size() == self.memory_map_size(),
            iter.descriptor_size() == self.descriptor_size(),
            iter@ == self@,
    {
        MemoryMapIter { _marker: PhantomData, cursor: self.start() }
    }

    /// Returns a mutable iterator over the memory map.
    pub fn iter_mut(&mut self) -> (iter: MemoryMapMutIter<'_>)
        ensures
            iter.ptr() == old(self).ptr(),
            iter.memory_map_size() == old(self).memory_map_size(),
            iter.descriptor_size() == old(self).descriptor_size(),
            iter@ == old(self)@,
            *final(self) == *old(self),
    {
        MemoryMapMutIter { _marker: PhantomData, cursor: self.start() }
    }

    /// The place in front of the first descriptor.
    fn start(&self) -> (cursor: Cursor)
        ensures
            cursor.ptr == self.ptr(),
            cursor.memory_map_size == self.memory_map_size(),
            cursor.descriptor_size == self.descriptor_size(),
    {
        proof {
            use_type_invariant(self);
        }
        Cursor {
            ptr: self.ptr,
            memory_map_size: self.memory_map_size,
            descriptor_size: self.descriptor_size,
        }
    }

    /// Ends the memory map, and gives its buffer back if there are live boot
    /// services.
    pub fn drop(self, system: &System) -> (request: Option<FreePool>)
        ensures
            request == freed(system, self.ptr()),
            request is Some <==> system.state() == State::Boot && system.instance() is Some,
            request is Some ==> request->0.buffer == self.ptr(),
    {
        free(system, self.ptr)
    }
}

/// Iterator for `MemoryMap`.
#[derive(Debug)]
pub struct MemoryMapIter<'a> {
    _marker: PhantomData<&'a MemoryMap>,
    cursor: Cursor,
}

impl<'a> View for MemoryMapIter<'a> {
    type V = Seq<Address>;

    /// The addresses of the descriptors that are left.
    open spec fn view(&self) -> Seq<Address> {
        descriptors(self.ptr(), self.memory_map_size(), self.descriptor_size())
    }
}

impl<'a> MemoryMapIter<'a> {
    /// The address of the next descriptor.
    pub closed spec fn ptr(&self) -> Address {
        self.cursor.ptr
    }

    /// How many bytes are left.
    pub closed spec fn memory_map_size(&self) -> usize {
        self.cursor.memory_map_size
    }

    /// How many bytes a descriptor takes.
    pub closed spec fn descriptor_size(&self) -> usize {
        self.cursor.descriptor_size
    }

    /// Returns the address of the next descriptor, or `None` at the end. A
    /// descriptor uses up its size of the bytes that are left; at the end,
    /// nothing changes. The bytes that are left are whole descriptors, before
    /// and after.
    pub fn next(&mut self) -> (item: Option<Address>)
        ensures
            item == first(old(self)@),
            final(self)@ == rest(old(self)@),
            item is None ==> *final(self) == *old(self),
            item is Some <==> old(self).memory_map_size() > 0,
            item is Some ==> {
                &&& item->0 == old(self).ptr()
                &&& final(self).ptr() == past(old(self).ptr(), old(self).descriptor_size() as int)
                &&& old(self).ptr() + old(self).descriptor_size() <= usize::MAX ==> final(self).ptr()
                    == old(self).ptr() + old(self).descriptor_size()
                &&& old(self).ptr() + old(self).descriptor_size() > usize::MAX ==> final(self).ptr()
                    == old(self).ptr() + old(self).descriptor_size() - usize::MAX - 1
                &&& final(self).memory_map_size() == old(self).memory_map_size() - old(
                    self,
                ).descriptor_size()
            },
            final(self).descriptor_size() == old(self).descriptor_size(),
            final(self).descriptor_size() > 0,
            old(self).memory_map_size() % old(self).descriptor_size() == 0,
            final(self).memory_map_size() % final(self).descriptor_size() == 0,
    {
        proof {
            use_type_invariant(&self.cursor);
        }
        let item = self.cursor.next();
        proof {
            use_type_invariant(&self.cursor);
        }
        item
    }
}

/// Iterator for `MemoryMap`.
#[derive(Debug)]
pub struct MemoryMapMutIter<'a> {
    _marker: PhantomData<&'a MemoryMap>,
    cursor: Cursor,
}

impl<'a> View for MemoryMapMutIter<'a> {
    type V = Seq<Address>;

    /// The addresses of the descriptors that are left.
    open spec fn view(&self) -> Seq<Address> {
        descriptors(self.ptr(), self.memory_map_size(), self.descriptor_size())
    }
}

impl<'a> MemoryMapMutIter<'a> {
    /// The address of the next descriptor.
    pub closed spec fn ptr(&self) -> Address {
        self.cursor.ptr
    }

    /// How many bytes are left.
    pub closed spec fn memory_map_size(&self) -> usize {
        self.cursor.memory_map_size
    }

    /// How many bytes a descriptor takes.
    pub closed spec fn descriptor_size(&self) -> usize {
        self.cursor.descriptor_size
    }

    /// Returns the address of the next descriptor, or `None` at the end. A
    /// descriptor uses up its size of the bytes that are left; at the end,
    /// nothing changes. The bytes that are left are whole descriptors, before
    /// and after.
    pub fn next(&mut self) -> (item: Option<Address>)
        ensures
            item == first(old(self)@),
            final(self)@ == rest(old(self)@),
            item is None ==> *final(self) == *old(self),
            item is Some <==> old(self).memory_map_size() > 0,
            item is Some ==> {
                &&& item->0 == old(self).ptr()
                &&& final(self).ptr() == past(old(self).ptr(), old(self).descriptor_size() as int)
                &&& old(self).ptr() + old(self).descriptor_size() <= usize::MAX ==> final(self).ptr()
                    == old(self).ptr() + old(self).descriptor_size()
                &&& old(self).ptr() + old(self).descriptor_size() > usize::MAX ==> final(self).ptr()
                    == old(self).ptr() + old(self).descriptor_size() - usize::MAX - 1
                &&& final(self).memory_map_size() == old(self).memory_map_size() - old(
                    self,
                ).descriptor_size()
            },
            final(self).descriptor_size() == old(self).descriptor_size(),
            final(self).descriptor_size() > 0,
            old(self).memory_map_size() % old(self).descriptor_size() == 0,
            final(self).memory_map_size() % final(self).descriptor_size() == 0,
    {
        proof {
            use_type_invariant(&self.cursor);
        }
        let item = self.cursor.next();
        proof {
            use_type_invariant(&self.cursor);
        }
        item
    }
}

/// An iterator yields the entries in order, each once, and after the last one
/// it yields nothing, however often it is asked: its `n`-th answer is the
/// `n`-th entry.
pub proof fn iteration_yields_each_entry_once(items: Seq<Address>, n: nat)
    ensures
        first(rest_after(items, n)) == (if n < items.len() {
            Some(items[n as int])
        } else {
            None
        }),
{
    lemma_rest_after(items, n);
}

proof fn lemma_rest_after(items: Seq<Address>, n: nat)
    ensures
        rest_after(items, n) == items.skip(if n < items.len() {
            n as int
        } else {
            items.len() as int
        }),
    decreases n,
{
    if n > 0 {
        lemma_rest_after(items, (n - 1) as nat);
    }
    assert(rest_after(items, n) =~= items.skip(if n < items.len() {
        n as int
    } else {
        items.len() as int
    }));
}

/// In a buffer that does not run past the end of memory, the descriptors lie
/// side by side: they start at the beginning of the buffer, each begins where
/// the one before it ends, and the last one ends where the buffer does. So each
/// lies within the buffer, and no two of them overlap.
pub proof fn descriptors_fill_the_buffer(ptr: Address, size: usize, step: usize)
    requires
        step > 0,
        size % step == 0,
        ptr + size <= usize::MAX + 1,
    ensures
        descriptors(ptr, size, step).len() * step == size,
        forall|i: int|
            #![trigger descriptors(ptr, size, step)[i]]
            0 <= i < descriptors(ptr, size, step).len() ==> {
                &&& descriptors(ptr, size, step)[i] == ptr + i * step
                &&& descriptors(ptr, size, step)[i] + step <= ptr + size
            },
        forall|i: int, j: int|
            #![trigger descriptors(ptr, size, step)[i], descriptors(ptr, size, step)[j]]
            0 <= i < j < descriptors(ptr, size, step).len() ==> descriptors(ptr, size, step)[i]
                + step <= descriptors(ptr, size, step)[j],
{
    let items = descriptors(ptr, size, step);
    let count = items.len() as int;
    lemma_fundamental_div_mod(size as int, step as int);
    lemma_mul_is_commutative(step as int, count);
    assert forall|i: int| #![trigger items[i]] 0 <= i < count implies {
        &&& items[i] == ptr + i * step
        &&& items[i] + step <= ptr + size
    } by {
        assert(0 <= i * step && i * step + step <= count * step) by (nonlinear_arith)
            requires
                0 <= i < count,
                step > 0,
        ;
    }
    assert forall|i: int, j: int| #![trigger items[i], items[j]] 0 <= i < j < count implies items[i]
        + step <= items[j] by {
        assert(i * step + step <= j * step) by (nonlinear_arith)
            requires
                i < j,
                step > 0,
        ;
    }
}

/// The entries of a map lie side by side in its own buffer: the first one is at
/// the address of the buffer, each other one is a descriptor size further on,
/// and they take up all of its bytes. The buffer must not run past the end of
/// memory.
pub proof fn map_entries_lie_in_its_buffer(map: MemoryMap, i: int)
    requires
        map.descriptor_size() > 0,
        map.memory_map_size() % map.descriptor_size() == 0,
        map.ptr() + map.memory_map_size() <= usize::MAX + 1,
    ensures
        map@.len() * map.descriptor_size() == map.memory_map_size(),
        0 <= i < map@.len() ==> map@[i] == map.ptr() + i * map.descriptor_size(),
        map@.len() > 0 ==> map@[0] == map.ptr(),
{
    descriptors_fill_the_buffer(map.ptr(), map.memory_map_size(), map.descriptor_size());
}

/// What is left for an iterator are the descriptors from its own address on,
/// which take up all the bytes that are left.
pub proof fn iterator_entries_start_at_its_address(iter: MemoryMapIter<'_>, i: int)
    requires
        iter.descriptor_size() > 0,
        iter.memory_map_size() % iter.descriptor_size() == 0,
        iter.ptr() + iter.memory_map_size() <= usize::MAX + 1,
    ensures
        iter@.len() * iter.descriptor_size() == iter.memory_map_size(),
        0 <= i < iter@.len() ==> iter@[i] == iter.ptr() + i * iter.descriptor_size(),
        iter@.len() > 0 ==> iter@[0] == iter.ptr(),
{
    descriptors_fill_the_buffer(iter.ptr(), iter.memory_map_size(), iter.descriptor_size());
}

/// The same holds of a mutable iterator.
pub proof fn mutable_iterator_entries_start_at_its_address(iter: MemoryMapMutIter<'_>, i: int)
    requires
        iter.descriptor_size() > 0,
        iter.memory_map_size() % iter.descriptor_size() == 0,
        iter.ptr() + iter.memory_map_size() <= usize::MAX + 1,
    ensures
        iter@.len() * iter.descriptor_size() == iter.memory_map_size(),
        0 <= i < iter@.len() ==> iter@[i] == iter.ptr() + i * iter.descriptor_size(),
        iter@.len() > 0 ==> iter@[0] == iter.ptr(),
{
    descriptors_fill_the_buffer(iter.ptr(), iter.memory_map_size(), iter.descriptor_size());
}

/// The `n`-th answer of an iterator over a map is the address that lies `n`
/// descriptor sizes past the address of the buffer, for as long as that lies
/// within the bytes of the map, and nothing from there on.
pub proof fn nth_answer_is_n_descriptors_on(map: MemoryMap, n: nat)
    requires
        map.descriptor_size() > 0,
        map.memory_map_size() % map.descriptor_size() == 0,
        map.ptr() + map.memory_map_size() <= usize::MAX + 1,
    ensures
        first(rest_after(map@, n)) is Some <==> n * map.descriptor_size() < map.memory_map_size(),
        first(rest_after(map@, n)) is Some ==> first(rest_after(map@, n))->0 == map.ptr() + n
            * map.descriptor_size(),
{
    map_entries_lie_in_its_buffer(map, n as int);
    iteration_yields_each_entry_once(map@, n);
    let count = map@.len();
    let step = map.descriptor_size();
    assert(n < count <==> n * step < count * step) by (nonlinear_arith)
        requires
            step > 0,
    ;
}

/// A step past an address adds its bytes to it, and wraps around at the end of
/// memory.
pub proof fn steps_add_up(ptr: Address, offset: int)
    requires
        0 <= offset <= usize::MAX,
    ensures
        past(ptr, offset) == ptr + offset || past(ptr, offset) == ptr + offset - usize::MAX - 1,
        ptr + offset <= usize::MAX ==> past(ptr, offset) == ptr + offset,
        past(ptr, 0) == ptr,
{
}

} // verus!
