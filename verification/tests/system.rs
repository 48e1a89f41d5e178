use efi::{init, BootServices, EfiBox, FreePool, MemoryType, System, SystemTable, WriteStep, MAX_BIT};

#[test]
fn initialization_returns_the_services() {
    let mut system = System::new();
    assert!(!system.is_initialized());
    let (bs, rs) = init(&mut system, 0x10, 0x20);
    assert!(system.is_initialized());
    assert_eq!(bs.image_handle(), 0x10);
    assert_eq!(bs.system_table(), 0x20);
    assert_eq!(rs.system_table(), 0x20);
}

#[test]
fn there_is_no_instance_before_initialization() {
    let system = System::new();
    assert_eq!(BootServices::with_instance(&system, |_| 1), None);
}

#[test]
fn the_instance_is_the_one_that_was_initialized() {
    let mut system = System::new();
    init(&mut system, 0x10, 0x20);
    let seen = BootServices::with_instance(&system, |bs| (bs.image_handle(), bs.system_table()));
    assert_eq!(seen, Some((0x10, 0x20)));
}

#[test]
fn the_instance_ends_with_boot_mode() {
    let mut system = System::new();
    let (bs, _) = init(&mut system, 0x10, 0x20);
    assert_eq!(bs.exit_boot_services(&mut system, MAX_BIT | 2), Err(MAX_BIT | 2));
    assert_eq!(BootServices::with_instance(&system, |_| 1), Some(1));
    assert_eq!(bs.exit_boot_services(&mut system, 0), Ok(()));
    assert_eq!(BootServices::with_instance(&system, |_| 1), None);
    assert_eq!(bs.exit_boot_services(&mut system, MAX_BIT), Err(MAX_BIT));
    assert_eq!(BootServices::with_instance(&system, |_| 1), None);
    assert!(system.is_initialized());
}

#[test]
fn the_consoles_come_from_the_system_table() {
    let mut system = System::new();
    let (bs, _) = init(&mut system, 1, 2);
    let table = SystemTable { con_out: 0x100, std_err: 0x200 };
    let mut out = bs.stdout(&table).write_str("x");
    assert!(out.step(None) == WriteStep::Output);
    assert_eq!(out.arguments().0, 0x100);
    let mut err = bs.stderr(&table).write_str("x");
    assert!(err.step(None) == WriteStep::Output);
    assert_eq!(err.arguments().0, 0x200);
}

#[test]
fn blocks_are_loader_data() {
    let mut system = System::new();
    let (bs, _) = init(&mut system, 1, 2);
    let request = bs.allocate(123);
    assert_eq!(request.memory_type, MemoryType::LoaderData);
    assert_eq!(request.size, 123);
    assert_eq!(request.finish(0, 0x500), Ok(0x500));
    assert_eq!(request.finish(MAX_BIT | 9, 0x500), Err(MAX_BIT | 9));
    assert_eq!(bs.deallocate(0x500), FreePool { buffer: 0x500 });
}

#[test]
fn a_boxed_object_goes_to_its_block() {
    let mut system = System::new();
    let (bs, _) = init(&mut system, 1, 2);
    let boxing = bs.boxed([7u32; 5]);
    assert_eq!(boxing.request.size, 20);
    assert_eq!(boxing.request.memory_type, MemoryType::LoaderData);
    let boxed = boxing.finish(0, 0x600).ok().unwrap();
    assert_eq!(boxed.value, [7; 5]);
    assert_eq!(boxed.owner.into_raw(), 0x600);
}

#[test]
fn a_failed_allocation_boxes_nothing() {
    let mut system = System::new();
    let (bs, _) = init(&mut system, 1, 2);
    assert_eq!(bs.boxed(1u8).finish(MAX_BIT | 9, 0x600).err(), Some(MAX_BIT | 9));
}

#[test]
fn raw_addresses_round_trip() {
    assert_eq!(EfiBox::<u64>::from_raw(0x700).into_raw(), 0x700);
    assert_eq!(EfiBox::<str>::from_raw(0x701).into_raw(), 0x701);
}

#[test]
fn a_box_gives_its_block_back() {
    let mut system = System::new();
    let (bs, _) = init(&mut system, 1, 2);
    let end = EfiBox::<u64>::from_raw(0x700).drop();
    assert_eq!(end.object, 0x700);
    assert_eq!(end.finish(&system), Some(FreePool { buffer: 0x700 }));
    assert_eq!(bs.exit_boot_services(&mut system, 0), Ok(()));
    assert_eq!(EfiBox::<u64>::from_raw(0x700).drop().finish(&system), None);
}
