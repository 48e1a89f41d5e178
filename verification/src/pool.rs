//! The UEFI heap: blocks of memory, and the objects placed in them.
//!
//! The library decides what the firmware is asked for and what becomes of its
//! answer. Its caller performs the requests.
use core::marker::PhantomData;

use vstd::prelude::*;

use crate::status::{
    check_status, errors_have_the_high_bit, is_error, EfiResult, Status, MAX_BIT,
};
use crate::system::{Address, BootServices, State, System};

verus! {

/// The kinds of memory that the library asks for.
#[derive(Clone, Copy, Debug, PartialEq, Eq, Structural)]
pub enum MemoryType {
    /// `EfiLoaderData`.
    LoaderData,
}

/// A request for a block of memory: a call of `AllocatePool`.
#[derive(Clone, Copy, Debug, PartialEq, Eq, Structural)]
pub struct AllocatePool {
    pub memory_type: MemoryType,
    /// The size of the block in bytes.
    pub size: usize,
}

/// A request to give a block of memory back: a call of `FreePool`. Nobody
/// looks at the status code of this call.
#[derive(Clone, Copy, Debug, PartialEq, Eq, Structural)]
pub struct FreePool {
    /// The address of the block.
    pub buffer: Address,
}

/// The request for a block of loader data of the given size.
pub open spec fn loader_data(size: usize) -> AllocatePool {
    AllocatePool { memory_type: MemoryType::LoaderData, size }
}

/// The block that comes of an allocation: the firmware's, unless it reported an
/// error.
pub open spec fn allocated(status: Status, buffer: Address) -> EfiResult<Address> {
    if is_error(status) {
        Err(status)
    } else {
        Ok(buffer)
    }
}

/// The request by which a block is given back. Without live boot services there
/// is none, and the block is leaked.
pub open spec fn freed(system: &System, buffer: Address) -> Option<FreePool> {
    if system.live() is Some {
        Some(FreePool { buffer })
    } else {
        None
    }
}

impl AllocatePool {
    /// Takes the answer to the request: the status code, and the address that
    /// the firmware stored. Allocation fails when the status code is an error.
    pub fn finish(self, status: Status, buffer: Address) -> (result: EfiResult<Address>)
        ensures
            result == allocated(status, buffer),
            result is Ok <==> status <= usize::MAX / 2,
            result is Ok ==> result->Ok_0 == buffer,
            result is Err ==> result->Err_0 == status,
    {
        match check_status(status) {
            Ok(()) => Ok(buffer),
            Err(error) => Err(error),
        }
    }
}

impl BootServices {
    /// Asks for a block of memory from the UEFI allocator. The memory is of
    /// type `EfiLoaderData`.
    ///
    /// The block must be given back (using `deallocate()`) before exiting boot
    /// services.
    pub fn allocate(&self, size: usize) -> (request: AllocatePool)
        ensures
            request == loader_data(size),
            request.memory_type == MemoryType::LoaderData,
            request.size == size,
    {
        AllocatePool { memory_type: MemoryType::LoaderData, size }
    }

    /// Gives back a block of memory provided by `allocate()`.
    pub fn deallocate(&self, buffer: Address) -> (request: FreePool)
        ensures
            request == (FreePool { buffer }),
            request.buffer == buffer,
    {
        FreePool { buffer }
    }

    /// Starts to place an object on the UEFI heap.
    pub fn boxed<T>(&self, value: T) -> (boxing: Boxing<T>)
        ensures
            boxing.request.memory_type == MemoryType::LoaderData,
            boxing.request.size as nat == vstd::layout::size_of::<T>(),
            boxing.value == value,
    {
        Boxing { request: self.allocate(core::mem::size_of::<T>()), value }
    }
}

/// Gives a block back, if there are live boot services.
pub(crate) fn free(system: &System, buffer: Address) -> (request: Option<FreePool>)
    ensures
        request == freed(system, buffer),
        request is Some <==> system.state() == State::Boot && system.instance() is Some,
        request is Some ==> request->0.buffer == buffer,
{
    let callback = |bs: &BootServices| -> (request: FreePool)
        ensures
            request.buffer == buffer,
    {
        bs.deallocate(buffer)
    };
    BootServices::with_instance(system, callback)
}

/// An object on its way to the UEFI heap.
pub struct Boxing<T> {
    /// The request for the block of memory that the object needs.
    pub request: AllocatePool,
    pub value: T,
}

/// An object that has its place on the UEFI heap, but is not yet there.
pub struct Boxed<T> {
    /// The owner of the place.
    pub owner: EfiBox<T>,
    /// What has to be written there.
    pub value: T,
}

impl<T> Boxing<T> {
    /// Takes the answer to the request. If the allocation succeeded, the object
    /// goes to the start of the block, and the box owns the block.
    pub fn finish(self, status: Status, buffer: Address) -> (result: EfiResult<Boxed<T>>)
        ensures
            is_error(status) ==> result == Err::<Boxed<T>, Status>(status),
            !is_error(status) ==> result == Ok::<Boxed<T>, Status>(
                Boxed { owner: EfiBox::owning(buffer), value: self.value },
            ),
            result is Ok <==> status <= usize::MAX / 2,
            result is Ok ==> {
                &&& result->Ok_0.owner.ptr() == buffer
                &&& result->Ok_0.value == self.value
            },
            result is Err ==> result->Err_0 == status,
    {
        match check_status(status) {
            Ok(()) => Ok(Boxed { owner: EfiBox::from_raw(buffer), value: self.value }),
            Err(error) => Err(error),
        }
    }
}

/// An object allocated on the UEFI heap.
///
/// # Leaks
///
/// If you drop an `EfiBox` after exiting boot services, the backing memory will
/// be leaked. While this behavior is safe, it is usually not what you want.
pub struct EfiBox<T: ?Sized> {
    ptr: Address,
    _marker: PhantomData<T>,
}

/// The end of an `EfiBox`: its object is destroyed, and then its block is given
/// back.
#[derive(Clone, Copy, Debug, PartialEq, Eq, Structural)]
pub struct BoxDrop {
    /// The address of the object to destroy.
    pub object: Address,
}

impl BoxDrop {
    /// Gives the block back, once the object has been destroyed. Without live
    /// boot services, the block is leaked.
    pub fn finish(self, system: &System) -> (request: Option<FreePool>)
        ensures
            request == freed(system, self.object),
            request is Some <==> system.state() == State::Boot && system.instance() is Some,
            request is Some ==> request->0.buffer == self.object,
    {
        free(system, self.object)
    }
}

impl<T: ?Sized> EfiBox<T> {
    /// The box that owns the object at the given address.
    pub closed spec fn owning(ptr: Address) -> EfiBox<T> {
        EfiBox { ptr, _marker: PhantomData }
    }

    /// The address of the object.
    pub closed spec fn ptr(&self) -> Address {
        self.ptr
    }

    /// Constructs an `EfiBox` from the address of an object.
    ///
    /// The address must originate from the UEFI allocator itself.
    pub fn from_raw(ptr: Address) -> (owner: Self)
        ensures
            owner == EfiBox::<T>::owning(ptr),
            owner.ptr() == ptr,
    {
        EfiBox { ptr, _marker: PhantomData }
    }

    /// Extracts the address from an `EfiBox`.
    ///
    /// The user is then responsible for freeing the underlying memory.
    pub fn into_raw(self) -> (ptr: Address)
        ensures
            ptr == self.ptr(),
    {
        self.ptr
    }

    /// Ends the box.
    pub fn drop(self) -> (end: BoxDrop)
        ensures
            end == (BoxDrop { object: self.ptr() }),
            end.object == self.ptr(),
    {
        BoxDrop { object: self.ptr }
    }
}

/// A box and its address stand for each other: `from_raw()` and `into_raw()`
/// undo one another.
pub proof fn raw_addresses_round_trip<T: ?Sized>(owner: EfiBox<T>, ptr: Address)
    ensures
        EfiBox::<T>::owning(ptr).ptr() == ptr,
        EfiBox::<T>::owning(owner.ptr()) == owner,
{
}

/// A box gives back the very block that was allocated for it if boot services
/// are live when it ends, and otherwise leaks it.
pub proof fn box_gives_back_its_block<T>(system: System, status: Status, buffer: Address)
    requires
        allocated(status, buffer) is Ok,
    ensures
        EfiBox::<T>::owning(buffer).ptr() == allocated(status, buffer)->Ok_0,
        system.live() is Some ==> freed(&system, EfiBox::<T>::owning(buffer).ptr()) == Some(
            FreePool { buffer },
        ),
        system.live() is None ==> freed(&system, EfiBox::<T>::owning(buffer).ptr()) is None,
{
}

/// After exiting boot services, a block that is dropped is leaked.
pub proof fn blocks_are_leaked_after_exit(
    before: System,
    status: Status,
    after: System,
    buffer: Address,
)
    requires
        before.exits(status, &after),
        !is_error(status),
    ensures
        freed(&after, buffer) is None,
{
}

/// A request for loader data asks for loader data, and for exactly the bytes
/// that are wanted. So two requests are the same only if the sizes are.
pub proof fn request_asks_for_the_size(size: usize, other: usize)
    ensures
        loader_data(size).memory_type == MemoryType::LoaderData,
        loader_data(size).size == size,
        loader_data(size) == loader_data(other) <==> size == other,
{
}

/// An allocation goes by the high bit of the status code alone: if it is clear,
/// the block is where the firmware put it, and otherwise the allocation fails
/// with that code.
pub proof fn allocation_goes_by_the_high_bit(status: Status, buffer: Address)
    ensures
        status & MAX_BIT == 0 ==> allocated(status, buffer) == Ok::<Address, Status>(buffer),
        status & MAX_BIT != 0 ==> allocated(status, buffer) == Err::<Address, Status>(status),
{
    errors_have_the_high_bit(status);
}

/// A block is given back exactly when the system is in boot mode and
/// initialized, and then it is that block and no other.
pub proof fn block_is_given_back_in_boot_mode(system: System, buffer: Address)
    ensures
        freed(&system, buffer) is Some <==> system.state() == State::Boot
            && system.instance() is Some,
        freed(&system, buffer) is Some ==> freed(&system, buffer)->0.buffer == buffer,
{
}

} // verus!
