//! The record of the running system: what the library was initialized with,
//! the mode that the system is in, and the services that this makes available.
use vstd::prelude::*;

use crate::status::{
    check_status, errors_have_the_high_bit, is_error, status_result, EfiResult, Status, MAX_BIT,
};

verus! {

/// A memory address. Zero is the null address.
pub type Address = usize;

/// A firmware handle.
pub type Handle = usize;

/// The mode that a system is in.
#[derive(Clone, Copy, Debug, PartialEq, Eq, Structural)]
pub enum State {
    /// The firmware is in control, and provides its boot services.
    Boot,
    /// The client is in control, and the boot services are disabled.
    Runtime,
}

/// The record of the running system. A program keeps a single one.
pub struct System {
    instance: Option<(Handle, Address)>,
    state: State,
}

/// UEFI boot services.
///
/// A UEFI system has two modes: *boot* mode and *runtime* mode. In boot mode,
/// the firmware is in control of the system; in return, the client has access
/// to *boot services* provided by the firmware. To load an OS, the client must
/// transition to runtime mode by calling `exit_boot_services()`. As its name
/// implies, this call disables boot services and hands control of the system
/// to the client.
pub struct BootServices {
    image_handle: Handle,
    system_table: Address,
}

/// UEFI runtime services.
///
/// These are available in both boot mode and runtime mode.
pub struct RuntimeServices {
    system_table: Address,
}

impl System {
    /// The image handle and the address of the system table that the system
    /// was initialized with.
    pub closed spec fn instance(&self) -> Option<(Handle, Address)> {
        self.instance
    }

    /// The mode that the system is in.
    pub closed spec fn state(&self) -> State {
        self.state
    }

    /// The current live `BootServices` object. There is one from
    /// initialization on, for as long as the system is in boot mode.
    pub open spec fn live(&self) -> Option<BootServices> {
        match (self.state(), self.instance()) {
            (State::Boot, Some((image_handle, system_table))) => Some(
                BootServices::at(image_handle, system_table),
            ),
            _ => None,
        }
    }

    /// Whether initialization with the given arguments leads from this record
    /// to another.
    pub open spec fn initializes(
        &self,
        image_handle: Handle,
        system_table: Address,
        next: &System,
    ) -> bool {
        &&& self.instance() is None
        &&& next.instance() == Some((image_handle, system_table))
        &&& next.state() == self.state()
    }

    /// Whether a request to exit boot services leads from this record to
    /// another, where `status` is the answer of the firmware.
    pub open spec fn exits(&self, status: Status, next: &System) -> bool {
        &&& next.instance() == self.instance()
        &&& next.state() == (if is_error(status) {
            self.state()
        } else {
            State::Runtime
        })
    }

    /// The record of a system that has just started: it is in boot mode, and
    /// not initialized.
    pub fn new() -> (system: System)
        ensures
            system.instance() is None,
            system.state() == State::Boot,
    {
        System { instance: None, state: State::Boot }
    }

    /// Whether the system has been initialized.
    pub fn is_initialized(&self) -> (initialized: bool)
        ensures
            initialized == (self.instance() is Some),
    {
        self.instance.is_some()
    }
}

/// Initializes the UEFI wrapper.
///
/// You should call this function *once* at the beginning of your application,
/// and share the resulting object throughout the program. The arguments must
/// be valid and not null.
pub fn init(system: &mut System, image_handle: Handle, system_table: Address) -> (services: (
    BootServices,
    RuntimeServices,
))
    requires
        old(system).instance() is None,
    ensures
        old(system).initializes(image_handle, system_table, final(system)),
        final(system).instance() == Some((image_handle, system_table)),
        final(system).state() == old(system).state(),
        services.0 == BootServices::at(image_handle, system_table),
        services.0.image_handle() == image_handle,
        services.0.system_table() == system_table,
        services.1 == RuntimeServices::at(system_table),
        services.1.system_table() == system_table,
{
    system.instance = Some((image_handle, system_table));
    let boot_services = BootServices { image_handle, system_table };
    let runtime_services = RuntimeServices { system_table };
    (boot_services, runtime_services)
}

impl BootServices {
    /// The boot services of the image with the given handle, in the system
    /// table at the given address.
    pub closed spec fn at(image_handle: Handle, system_table: Address) -> BootServices {
        BootServices { image_handle, system_table }
    }

    pub closed spec fn spec_image_handle(&self) -> Handle {
        self.image_handle
    }

    pub closed spec fn spec_system_table(&self) -> Address {
        self.system_table
    }

    /// The handle of the running image.
    #[verifier::when_used_as_spec(spec_image_handle)]
    pub fn image_handle(&self) -> (image_handle: Handle)
        ensures
            image_handle == self.image_handle(),
    {
        self.image_handle
    }

    /// The address of the system table.
    #[verifier::when_used_as_spec(spec_system_table)]
    pub fn system_table(&self) -> (system_table: Address)
        ensures
            system_table == self.system_table(),
    {
        self.system_table
    }

    /// Invokes the given callback with a reference to a current live
    /// `BootServices` object. Returns the result of the callback.
    ///
    /// If there is no current `BootServices` object, the callback is ignored
    /// and `None` is returned instead.
    ///
    /// This method is useful for writing panic handlers, since they don't have
    /// direct access to the system table.
    pub fn with_instance<F, T>(system: &System, callback: F) -> (result: Option<T>) where
        F: FnOnce(&BootServices) -> T,

        requires
            system.live() is Some ==> callback.requires((&system.live()->0,)),
        ensures
            result is Some <==> system.live() is Some,
            result is Some ==> callback.ensures((&system.live()->0,), result->0),
            result is Some <==> system.state() == State::Boot && system.instance() is Some,
            result is Some ==> system.instance() == Some(
                (system.live()->0.image_handle(), system.live()->0.system_table()),
            ),
    {
        if system.state != State::Boot {
            return None;
        }
        match system.instance {
            Some((image_handle, system_table)) => {
                let bs = BootServices { image_handle, system_table };
                Some(callback(&bs))
            },
            None => None,
        }
    }

    /// Moves the system to runtime mode, once the firmware has answered the
    /// request to exit boot services with `status`. If the firmware refused,
    /// the system stays as it is.
    pub fn exit_boot_services(&self, system: &mut System, status: Status) -> (result: EfiResult<()>)
        ensures
            old(system).exits(status, final(system)),
            result == status_result(status),
            result is Ok <==> status <= usize::MAX / 2,
            result is Err ==> result->Err_0 == status,
            result is Ok ==> final(system).state() == State::Runtime,
            result is Err ==> final(system).state() == old(system).state(),
            final(system).instance() == old(system).instance(),
    {
        let result = check_status(status);
        if result.is_ok() {
            system.state = State::Runtime;
        }
        result
    }
}

impl RuntimeServices {
    /// The runtime services in the system table at the given address.
    pub closed spec fn at(system_table: Address) -> RuntimeServices {
        RuntimeServices { system_table }
    }

    pub closed spec fn spec_system_table(&self) -> Address {
        self.system_table
    }

    /// The address of the system table.
    #[verifier::when_used_as_spec(spec_system_table)]
    pub fn system_table(&self) -> (system_table: Address)
        ensures
            system_table == self.system_table(),
    {
        self.system_table
    }
}

/// The services are known by the image handle and the system table that the
/// system was initialized with.
pub proof fn services_know_their_system(image_handle: Handle, system_table: Address)
    ensures
        BootServices::at(image_handle, system_table).image_handle() == image_handle,
        BootServices::at(image_handle, system_table).system_table() == system_table,
        RuntimeServices::at(system_table).system_table() == system_table,
{
}

/// There is no live `BootServices` object before initialization; in boot mode,
/// initialization makes the object live that it returns.
pub proof fn initialization_makes_boot_services_live(
    before: System,
    image_handle: Handle,
    system_table: Address,
    after: System,
)
    requires
        before.initializes(image_handle, system_table, &after),
    ensures
        before.live() is None,
        before.state() == State::Boot ==> after.live() == Some(
            BootServices::at(image_handle, system_table),
        ),
{
}

/// There is a live `BootServices` object exactly when the system is in boot mode
/// and initialized, and it belongs to the image and the system table that the
/// system was initialized with.
pub proof fn live_services_are_those_of_the_system(system: System)
    ensures
        system.live() is Some <==> system.state() == State::Boot && system.instance() is Some,
        system.live() is Some ==> system.instance() == Some(
                (system.live()->0.image_handle(), system.live()->0.system_table()),
            ),
{
}

/// Initialization records its arguments, in a system that had none, and leaves
/// the mode as it was.
pub proof fn initialization_records_its_arguments(
    before: System,
    image_handle: Handle,
    system_table: Address,
    after: System,
)
    ensures
        before.initializes(image_handle, system_table, &after) <==> {
            &&& before.instance() is None
            &&& after.instance() == Some((image_handle, system_table))
            &&& after.state() == before.state()
        },
{
}

/// A request to exit boot services moves the system to runtime mode exactly when
/// the firmware's answer has the high bit clear, and changes nothing else.
pub proof fn exit_goes_by_the_high_bit(before: System, status: Status, after: System)
    ensures
        before.exits(status, &after) <==> {
            &&& after.instance() == before.instance()
            &&& status & MAX_BIT == 0 ==> after.state() == State::Runtime
            &&& status & MAX_BIT != 0 ==> after.state() == before.state()
        },
{
    errors_have_the_high_bit(status);
}

/// Exiting boot services leaves no live `BootServices` object, and a refusal
/// leaves the live object as it was.
pub proof fn exit_disables_boot_services(before: System, status: Status, after: System)
    requires
        before.exits(status, &after),
    ensures
        !is_error(status) ==> after.live() is None,
        is_error(status) ==> after.live() == before.live(),
{
}

/// Whether a series of records is a history of the system: each record follows
/// from the one before it by initialization or by a request to exit.
pub open spec fn is_history(records: Seq<System>) -> bool {
    forall|i: int|
        #![trigger records[i]]
        0 < i < records.len() ==> follows(records[i - 1], records[i])
}

/// Whether a record follows from another by initialization or by a request to
/// exit boot services.
pub open spec fn follows(before: System, after: System) -> bool {
    ||| exists|image_handle: Handle, system_table: Address| #[trigger]
        before.initializes(image_handle, system_table, &after)
    ||| exists|status: Status| #[trigger] before.exits(status, &after)
}

/// A system that has been initialized stays so, with the same image handle and
/// system table: nothing in its history initializes it again. And it never
/// returns from runtime mode, so its boot services never come back.
pub proof fn initialization_and_exit_are_final(records: Seq<System>, i: int, j: int)
    requires
        is_history(records),
        0 <= i <= j < records.len(),
    ensures
        records[i].instance() is Some ==> records[j].instance() == records[i].instance(),
        records[i].state() == State::Runtime ==> records[j].state() == State::Runtime
            && records[j].live() is None,
    decreases j - i,
{
    if i < j {
        initialization_and_exit_are_final(records, i, j - 1);
        assert(follows(records[j - 1], records[j]));
    }
}

} // verus!
