use efi::{init, MapAnswer, MapError, MapInfo, MapSizing, FreePool, BootServices, MemoryMap, MemoryType, System, MAX_BIT};

fn booted() -> (System, BootServices) {
    let mut system = System::new();
    let (bs, _) = init(&mut system, 1, 2);
    (system, bs)
}

fn info(memory_map_size: usize, map_key: usize, descriptor_size: usize) -> MapInfo {
    MapInfo { memory_map_size, map_key, descriptor_size, descriptor_version: 1 }
}

/// The last answer to an exchange in which the buffer is at the given address.
fn last_answer(buffer: usize, status: usize, last: MapInfo) -> Result<MemoryMap, MapError> {
    let (_, bs) = booted();
    let first = MapAnswer { status: MAX_BIT | 5, info: info(480, 0, 48) };
    let filling = bs.memory_map().finish(&bs, first).unwrap().finish(0, buffer).unwrap();
    filling.finish(&bs, MapAnswer { status, info: last })
}

#[test]
fn the_first_call_has_no_buffer() {
    let (_, bs) = booted();
    let MapSizing { call } = bs.memory_map();
    assert_eq!(call.memory_map, 0);
    assert_eq!(call.info, MapInfo { memory_map_size: 0, map_key: 0, descriptor_size: 0, descriptor_version: 0 });
}

#[test]
fn the_buffer_has_room_to_spare() {
    let (_, bs) = booted();
    let first = MapAnswer { status: MAX_BIT | 5, info: info(480, 77, 48) };
    let allocation = bs.memory_map().finish(&bs, first).unwrap();
    assert_eq!(allocation.request.size, 672);
    assert_eq!(allocation.request.memory_type, MemoryType::LoaderData);
    let filling = allocation.finish(0, 0x9000).unwrap();
    assert_eq!(filling.call.memory_map, 0x9000);
    assert_eq!(filling.call.info, info(672, 77, 48));
}

#[test]
fn a_buffer_size_out_of_range_ends_the_exchange() {
    let (_, bs) = booted();
    let answer = |size, step| MapAnswer { status: 0, info: info(size, 0, step) };
    assert_eq!(bs.memory_map().finish(&bs, answer(usize::MAX, 1)), None);
    assert_eq!(bs.memory_map().finish(&bs, answer(0, usize::MAX / 4 + 1)), None);
    assert_eq!(bs.memory_map().finish(&bs, answer(4, usize::MAX / 4)), None);
    let largest = bs.memory_map().finish(&bs, answer(3, usize::MAX / 4)).unwrap();
    assert_eq!(largest.request.size, usize::MAX);
}

#[test]
fn a_failed_allocation_ends_the_exchange() {
    let (_, bs) = booted();
    let first = MapAnswer { status: 0, info: info(48, 0, 48) };
    let allocation = bs.memory_map().finish(&bs, first).unwrap();
    assert_eq!(allocation.finish(MAX_BIT | 9, 0), Err(MAX_BIT | 9));
}

#[test]
fn the_last_answer_makes_up_the_map() {
    let map = last_answer(0x9000, 0, info(528, 3, 48)).ok().unwrap();
    assert_eq!(map.len(), 11);
    assert_eq!(map.index(0), 0x9000);
    assert_eq!(map.index(10), 0x9000 + 480);
}

#[test]
fn a_refusal_gives_the_buffer_back() {
    let error = last_answer(0x9000, MAX_BIT | 5, info(0, 0, 0)).err().unwrap();
    assert_eq!(error, MapError::Refused { status: MAX_BIT | 5, buffer: FreePool { buffer: 0x9000 } });
}

#[test]
fn a_null_buffer_makes_no_map() {
    assert_eq!(last_answer(0, 0, info(48, 0, 48)).err(), Some(MapError::NullBuffer));
    assert_eq!(last_answer(0, 0, info(47, 0, 0)).err(), Some(MapError::NullBuffer));
}

#[test]
fn a_descriptor_size_of_zero_makes_no_map() {
    assert_eq!(last_answer(1, 0, info(48, 0, 0)).err(), Some(MapError::ZeroDescriptorSize));
}

#[test]
fn a_partial_descriptor_makes_no_map() {
    assert_eq!(last_answer(1, 0, info(49, 0, 48)).err(), Some(MapError::PartialDescriptor));
}

#[test]
fn iteration_yields_each_descriptor_once() {
    let mut map = MemoryMap::from_raw(1000, 120, 40);
    assert_eq!(map.len(), 3);
    let mut iter = map.iter();
    assert_eq!(iter.next(), Some(1000));
    assert_eq!(iter.next(), Some(1040));
    assert_eq!(iter.next(), Some(1080));
    assert_eq!(iter.next(), None);
    assert_eq!(iter.next(), None);
    let mut iter = map.iter_mut();
    assert_eq!(iter.next(), Some(1000));
    assert_eq!(iter.next(), Some(1040));
    assert_eq!(iter.next(), Some(1080));
    assert_eq!(iter.next(), None);
}

#[test]
fn indexing_agrees_with_iteration() {
    let map = MemoryMap::from_raw(0x4_0000, 56 * 9, 56);
    let mut iter = map.iter();
    for i in 0..map.len() {
        assert_eq!(iter.next(), Some(map.index(i)));
    }
    assert_eq!(iter.next(), None);
}

#[test]
fn an_empty_map_has_no_entries() {
    let map = MemoryMap::from_raw(16, 0, 48);
    assert_eq!(map.len(), 0);
    assert_eq!(map.iter().next(), None);
}

#[test]
fn a_map_may_end_with_memory() {
    let start = usize::MAX - 79;
    let map = MemoryMap::from_raw(start, 80, 40);
    let mut iter = map.iter();
    assert_eq!(iter.next(), Some(start));
    assert_eq!(iter.next(), Some(start + 40));
    assert_eq!(iter.next(), None);
}

#[test]
fn addresses_wrap_around() {
    let map = MemoryMap::from_raw(usize::MAX - 9, 40, 20);
    let mut iter = map.iter();
    assert_eq!(iter.next(), Some(usize::MAX - 9));
    assert_eq!(iter.next(), Some(10));
    assert_eq!(iter.next(), None);
    assert_eq!(map.index(1), 10);
}

#[test]
fn a_map_gives_its_buffer_back() {
    let (mut system, bs) = booted();
    let map = MemoryMap::from_raw(0x9000, 96, 48);
    assert_eq!(map.drop(&system), Some(FreePool { buffer: 0x9000 }));
    assert_eq!(bs.exit_boot_services(&mut system, 0), Ok(()));
    let map = MemoryMap::from_raw(0x9000, 96, 48);
    assert_eq!(map.drop(&system), None);
}
