//! The exchange with the firmware that retrieves the memory map.
//!
//! It takes three calls: `GetMemoryMap` without a buffer, for the size of the
//! map; `AllocatePool`, for a buffer; and `GetMemoryMap` again, with the buffer.
//! Each stage names the call to make, and turns the answer into the next stage.
use vstd::prelude::*;

use crate::memory_map::MemoryMap;
use crate::pool::{allocated, freed, loader_data, AllocatePool, FreePool, MemoryType};
use crate::status::{
    check_status, errors_have_the_high_bit, is_error, EfiResult, Status, MAX_BIT,
};
use crate::system::{Address, BootServices, System};

verus! {

/// How many descriptors the buffer has room for beyond those that the firmware
/// reported: the allocation of the buffer may itself add some. The number is
/// arbitrary, but it tends to work in practice.
pub const SPARE_DESCRIPTORS: usize = 4;

/// The variables that a `GetMemoryMap` call reads and writes.
#[derive(Clone, Copy, Debug, PartialEq, Eq, Structural)]
pub struct MapInfo {
    pub memory_map_size: usize,
    pub map_key: usize,
    pub descriptor_size: usize,
    pub descriptor_version: u32,
}

/// The arguments of a `GetMemoryMap` call.
#[derive(Clone, Copy, Debug, PartialEq, Eq, Structural)]
pub struct GetMemoryMap {
    /// The address of the buffer.
    pub memory_map: Address,
    /// What the variables hold before the call.
    pub info: MapInfo,
}

/// The answer to a `GetMemoryMap` call.
#[derive(Clone, Copy, Debug, PartialEq, Eq, Structural)]
pub struct MapAnswer {
    pub status: Status,
    /// What the variables hold after the call.
    pub info: MapInfo,
}

/// The first stage: the size of the map is asked for.
#[derive(Clone, Copy, Debug, PartialEq, Eq, Structural)]
pub struct MapSizing {
    pub call: GetMemoryMap,
}

/// The second stage: the buffer is asked for.
#[derive(Clone, Copy, Debug, PartialEq, Eq, Structural)]
pub struct MapAllocation {
    pub request: AllocatePool,
    /// What the variables of the next `GetMemoryMap` call hold.
    pub info: MapInfo,
}

/// The third stage: the map itself is asked for.
#[derive(Clone, Copy, Debug, PartialEq, Eq, Structural)]
pub struct MapFilling {
    pub call: GetMemoryMap,
}

/// Why the firmware's answers do not make up a memory map. Only after a refusal
/// is the buffer given back; the other answers are those of a broken firmware.
#[derive(Clone, Copy, Debug, PartialEq, Eq, Structural)]
pub enum MapError {
    /// The firmware reported an error. The buffer has to be given back.
    Refused { status: Status, buffer: FreePool },
    /// The buffer is at the null address.
    NullBuffer,
    /// The descriptor size is zero.
    ZeroDescriptorSize,
    /// The memory map size is not a multiple of the descriptor size.
    PartialDescriptor,
}

/// The size of a buffer for the map that the firmware reported: it has room for
/// some more descriptors.
pub open spec fn buffer_size(info: MapInfo) -> int {
    info.memory_map_size + SPARE_DESCRIPTORS * info.descriptor_size
}

/// The second stage, unless the size of the buffer is out of range. The status
/// code of the first call is not looked at: with no buffer, it is an error.
pub open spec fn allocation_stage(answer: MapAnswer) -> Option<MapAllocation> {
    if buffer_size(answer.info) > usize::MAX {
        None
    } else {
        let size = buffer_size(answer.info) as usize;
        Some(
            MapAllocation {
                request: loader_data(size),
                info: MapInfo {
                    memory_map_size: size,
                    map_key: answer.info.map_key,
                    descriptor_size: answer.info.descriptor_size,
                    descriptor_version: answer.info.descriptor_version,
                },
            },
        )
    }
}

/// The third stage, unless the allocation failed.
pub open spec fn filling_stage(
    allocation: MapAllocation,
    status: Status,
    buffer: Address,
) -> EfiResult<MapFilling> {
    match allocated(status, buffer) {
        Ok(memory_map) => Ok(
            MapFilling { call: GetMemoryMap { memory_map, info: allocation.info } },
        ),
        Err(error) => Err(error),
    }
}

/// What keeps the last answer from being a memory map in the given buffer.
pub open spec fn map_error(memory_map: Address, answer: MapAnswer) -> Option<MapError> {
    if is_error(answer.status) {
        Some(
            MapError::Refused { status: answer.status, buffer: FreePool { buffer: memory_map } },
        )
    } else if memory_map == 0 {
        Some(MapError::NullBuffer)
    } else if answer.info.descriptor_size == 0 {
        Some(MapError::ZeroDescriptorSize)
    } else if answer.info.memory_map_size % answer.info.descriptor_size != 0 {
        Some(MapError::PartialDescriptor)
    } else {
        None
    }
}

/// Whether a memory map is what the last answer reported, in the given buffer.
pub open spec fn is_map(map: MemoryMap, memory_map: Address, answer: MapAnswer) -> bool {
    &&& map.ptr() == memory_map
    &&& map.memory_map_size() == answer.info.memory_map_size
    &&& map.descriptor_size() == answer.info.descriptor_size
}

impl BootServices {
    /// Starts to retrieve a copy of the UEFI memory map. The first call is made
    /// with a null buffer, to get the size of the map.
    pub fn memory_map(&self) -> (stage: MapSizing)
        ensures
            stage.call.memory_map == 0,
            stage.call.info == (MapInfo {
                memory_map_size: 0,
                map_key: 0,
                descriptor_size: 0,
                descriptor_version: 0,
            }),
    {
        let info = MapInfo {
            memory_map_size: 0,
            map_key: 0,
            descriptor_size: 0,
            descriptor_version: 0,
        };
        MapSizing { call: GetMemoryMap { memory_map: 0, info } }
    }
}

impl MapSizing {
    /// Takes the answer to the first call. There is no next stage if the size
    /// of the buffer is out of range.
    pub fn finish(self, bs: &BootServices, answer: MapAnswer) -> (stage: Option<MapAllocation>)
        ensures
            stage == allocation_stage(answer),
            stage is None <==> answer.info.memory_map_size + 4 * answer.info.descriptor_size
                > usize::MAX,
            stage is Some ==> {
                &&& stage->0.request.memory_type == MemoryType::LoaderData
                &&& stage->0.request.size == answer.info.memory_map_size + 4
                    * answer.info.descriptor_size
                &&& stage->0.info.memory_map_size == stage->0.request.size
                &&& stage->0.info.map_key == answer.info.map_key
                &&& stage->0.info.descriptor_size == answer.info.descriptor_size
                &&& stage->0.info.descriptor_version == answer.info.descriptor_version
            },
    {
        let mut info = answer.info;
        // Add some wiggle room to account for the extra allocation
        let slack: usize = SPARE_DESCRIPTORS.checked_mul(info.descriptor_size)?;
        info.memory_map_size = info.memory_map_size.checked_add(slack)?;
        Some(MapAllocation { request: bs.allocate(info.memory_map_size), info })
    }
}

impl MapAllocation {
    /// Takes the answer to the request for a buffer.
    pub fn finish(self, status: Status, buffer: Address) -> (stage: EfiResult<MapFilling>)
        ensures
            stage == filling_stage(self, status, buffer),
            stage is Ok <==> status <= usize::MAX / 2,
            stage is Ok ==> {
                &&& stage->Ok_0.call.memory_map == buffer
                &&& stage->Ok_0.call.info == self.info
            },
            stage is Err ==> stage->Err_0 == status,
    {
        let memory_map = self.request.finish(status, buffer)?;
        Ok(MapFilling { call: GetMemoryMap { memory_map, info: self.info } })
    }
}

impl MapFilling {
    /// Takes the answer to the last call.
    pub fn finish(self, bs: &BootServices, answer: MapAnswer) -> (result: Result<
        MemoryMap,
        MapError,
    >)
        ensures
            match map_error(self.call.memory_map, answer) {
                Some(error) => result == Err::<MemoryMap, MapError>(error),
                None => result is Ok && is_map(result->Ok_0, self.call.memory_map, answer),
            },
            result is Ok <==> {
                &&& answer.status <= usize::MAX / 2
                &&& self.call.memory_map != 0
                &&& answer.info.descriptor_size > 0
                &&& answer.info.memory_map_size % answer.info.descriptor_size == 0
            },
            result is Ok ==> {
                &&& result->Ok_0.ptr() == self.call.memory_map
                &&& result->Ok_0.memory_map_size() == answer.info.memory_map_size
                &&& result->Ok_0.descriptor_size() == answer.info.descriptor_size
            },
            result is Err ==> match result->Err_0 {
                MapError::Refused { status, buffer } => {
                    &&& answer.status > usize::MAX / 2
                    &&& status == answer.status
                    &&& buffer.buffer == self.call.memory_map
                },
                MapError::NullBuffer => {
                    &&& answer.status <= usize::MAX / 2
                    &&& self.call.memory_map == 0
                },
                MapError::ZeroDescriptorSize => {
                    &&& answer.status <= usize::MAX / 2
                    &&& self.call.memory_map != 0
                    &&& answer.info.descriptor_size == 0
                },
                MapError::PartialDescriptor => {
                    &&& answer.status <= usize::MAX / 2
                    &&& self.call.memory_map != 0
                    &&& answer.info.descriptor_size > 0
                    &&& answer.info.memory_map_size % answer.info.descriptor_size != 0
                },
            },
    {
        let memory_map = self.call.memory_map;
        match check_status(answer.status) {
            Ok(()) => {
                let info = answer.info;
                if memory_map == 0 {
                    Err(MapError::NullBuffer)
                } else if info.descriptor_size == 0 {
                    Err(MapError::ZeroDescriptorSize)
                } else if info.memory_map_size % info.descriptor_size != 0 {
                    Err(MapError::PartialDescriptor)
                } else {
                    Ok(MemoryMap::from_raw(memory_map, info.memory_map_size, info.descriptor_size))
                }
            },
            Err(status) => {
                Err(MapError::Refused { status, buffer: bs.deallocate(memory_map) })
            },
        }
    }
}

/// The whole exchange. The buffer that is asked for has room for the map that
/// the firmware reported and for some more descriptors; the last call is given
/// that buffer, and its size; and if the firmware fills it in, a map comes of
/// it whose entries take up just the bytes that the firmware reported last.
pub proof fn exchange_retrieves_the_map(
    first: MapAnswer,
    status: Status,
    buffer: Address,
    last: MapAnswer,
    map: MemoryMap,
)
    requires
        buffer_size(first.info) <= usize::MAX,
        !is_error(status),
        map_error(buffer, last) is None,
        is_map(map, buffer, last),
    ensures
        ({
            let allocation = allocation_stage(first);
            let filling = filling_stage(allocation->0, status, buffer);
            &&& allocation is Some
            &&& allocation->0.request.size == first.info.memory_map_size + SPARE_DESCRIPTORS
                * first.info.descriptor_size
            &&& filling is Ok
            &&& filling->Ok_0.call.memory_map == buffer
            &&& filling->Ok_0.call.info.memory_map_size == allocation->0.request.size
            &&& map@.len() * map.descriptor_size() == last.info.memory_map_size
        }),
{
    let count = last.info.memory_map_size as int / last.info.descriptor_size as int;
    vstd::arithmetic::div_mod::lemma_fundamental_div_mod(
        last.info.memory_map_size as int,
        last.info.descriptor_size as int,
    );
    vstd::arithmetic::mul::lemma_mul_is_commutative(last.info.descriptor_size as int, count);
}

/// A buffer of the size of the reported map and four more descriptors is asked
/// for, unless that size is out of range; the other variables are handed on.
pub proof fn buffer_has_room_for_four_more(answer: MapAnswer)
    ensures
        allocation_stage(answer) is Some <==> answer.info.memory_map_size + 4
            * answer.info.descriptor_size <= usize::MAX,
        allocation_stage(answer) is Some ==> {
            let stage = allocation_stage(answer)->0;
            &&& stage.request.memory_type == MemoryType::LoaderData
            &&& stage.request.size - answer.info.memory_map_size == 4 * answer.info.descriptor_size
            &&& stage.info.memory_map_size == stage.request.size
            &&& stage.info.map_key == answer.info.map_key
            &&& stage.info.descriptor_size == answer.info.descriptor_size
            &&& stage.info.descriptor_version == answer.info.descriptor_version
        },
{
}

/// The last call is made exactly when the buffer was allocated, and then with
/// that buffer and with the variables of the second stage.
pub proof fn last_call_gets_the_buffer(
    allocation: MapAllocation,
    status: Status,
    buffer: Address,
)
    ensures
        filling_stage(allocation, status, buffer) is Ok <==> status & MAX_BIT == 0,
        filling_stage(allocation, status, buffer) is Ok ==> {
            let call = filling_stage(allocation, status, buffer)->Ok_0.call;
            &&& call.memory_map == buffer
            &&& call.info == allocation.info
        },
        status & MAX_BIT != 0 ==> filling_stage(allocation, status, buffer) == Err::<
            MapFilling,
            Status,
        >(status),
{
    errors_have_the_high_bit(status);
}

/// A map comes of the last answer exactly when the firmware reports no error,
/// the buffer is not null, the descriptor size is not zero, and the map size is
/// a multiple of it: the size of the map is no obstacle, nor anything else. Each
/// error is reported only for its own reason, and only if no earlier one holds.
pub proof fn map_fails_only_for_a_reason(memory_map: Address, answer: MapAnswer)
    ensures
        ({
            let refused = answer.status & MAX_BIT != 0;
            let size = answer.info.memory_map_size;
            let step = answer.info.descriptor_size;
            let error = map_error(memory_map, answer);
            &&& error is None <==> !refused && memory_map != 0 && step > 0 && size % step == 0
            &&& error is Some && error->0 is Refused <==> refused
            &&& error is Some && error->0 is Refused ==> {
                &&& error->0->status == answer.status
                &&& error->0->buffer.buffer == memory_map
            }
            &&& error == Some(MapError::NullBuffer) <==> !refused && memory_map == 0
            &&& error == Some(MapError::ZeroDescriptorSize) <==> !refused && memory_map != 0 && step
                == 0
            &&& error == Some(MapError::PartialDescriptor) <==> !refused && memory_map != 0 && step
                > 0 && size % step != 0
        }),
{
    errors_have_the_high_bit(answer.status);
}

/// Every whole number of descriptors makes up a map: whatever the descriptor
/// size and the number of entries, a firmware that reports that many bytes
/// without an error is believed.
pub proof fn any_number_of_entries_makes_a_map(
    memory_map: Address,
    answer: MapAnswer,
    entries: nat,
    map: MemoryMap,
)
    requires
        answer.status & MAX_BIT == 0,
        memory_map != 0,
        answer.info.descriptor_size > 0,
        answer.info.memory_map_size == entries * answer.info.descriptor_size,
    ensures
        map_error(memory_map, answer) is None,
        is_map(map, memory_map, answer) ==> {
            &&& map.ptr() == memory_map
            &&& map@.len() == entries
        },
{
    errors_have_the_high_bit(answer.status);
    let step = answer.info.descriptor_size as int;
    vstd::arithmetic::div_mod::lemma_mod_multiples_basic(entries as int, step);
    vstd::arithmetic::div_mod::lemma_div_by_multiple(entries as int, step);
}

/// If the firmware refuses to fill the buffer in, the buffer is given back at
/// once. If a map comes of it, the map gives back the same buffer when it ends
/// while boot services are live.
pub proof fn buffer_is_given_back(
    system: System,
    filling: MapFilling,
    last: MapAnswer,
    map: MemoryMap,
)
    ensures
        is_error(last.status) ==> map_error(filling.call.memory_map, last) == Some(
            MapError::Refused {
                status: last.status,
                buffer: FreePool { buffer: filling.call.memory_map },
            },
        ),
        is_map(map, filling.call.memory_map, last) && system.live() is Some ==> freed(
            &system,
            map.ptr(),
        ) == Some(FreePool { buffer: filling.call.memory_map }),
{
}

} // verus!
