//! This crate provides a high-level interface to UEFI.
//!
//! A typical OS loader would proceed as follows:
//!
//! 1. Call `efi::init()`
//! 2. Perform any OS-specific initialization
//! 3. Get the final memory map with `BootServices::memory_map()`
//! 4. Finally, call `BootServices::exit_boot_services()` to finish the pre-boot
//!    process
//!
//! The crate holds the decisions of the interface: what the firmware is asked
//! for, in what order, and what becomes of its answers. It does not call the
//! firmware itself. A function whose work needs a call returns a value that
//! names the call and its arguments; the caller makes the call, and hands the
//! answer to the value's `finish` or `step` method. Memory is known by its
//! addresses.
pub mod console;
pub mod map_query;
pub mod memory_map;
pub mod pool;
pub mod status;
pub mod system;
pub mod text;

pub use map_query::{GetMemoryMap, MapAllocation, MapAnswer, MapError, MapFilling, MapInfo, MapSizing};
pub use memory_map::{MemoryMap, MemoryMapIter, MemoryMapMutIter};
pub use pool::{AllocatePool, BoxDrop, Boxed, Boxing, EfiBox, FreePool, MemoryType};
pub use status::{check_status, EfiResult, Error, Status, MAX_BIT};
pub use system::{init, Address, BootServices, Handle, RuntimeServices, State, System};
pub use text::{FormatError, SimpleTextOutput, SystemTable, WriteStep, WriteStr, Writer};
