//! Status codes and the results built from them.
use vstd::prelude::*;

verus! {

/// A firmware status code, `EFI_STATUS`.
pub type Status = usize;

/// An error reported by the firmware.
pub type Error = Status;

pub type EfiResult<T> = Result<T, Error>;

/// The high bit of a status code, which marks it as an error.
pub const MAX_BIT: Status = !(!0usize >> 1);

/// Whether a status code reports an error: the error codes are the upper half
/// of all codes, those with the high bit set.
pub open spec fn is_error(status: Status) -> bool {
    status > usize::MAX / 2
}

/// What a status code says about the call that returned it.
pub open spec fn status_result(status: Status) -> EfiResult<()> {
    if is_error(status) {
        Err(status)
    } else {
        Ok(())
    }
}

/// Converts a low-level `EFI_STATUS` to a high-level `EfiResult`.
///
/// This returns `Ok` if the high (error) bit is not set, and `Err` otherwise.
/// Warnings do not have the bit set, so they count as success.
pub fn check_status(status: Status) -> (result: EfiResult<()>)
    ensures
        result == status_result(status),
        result is Ok <==> status & MAX_BIT == 0,
        result is Ok <==> status <= usize::MAX / 2,
        result is Err ==> result->Err_0 == status,
{
    proof {
        errors_have_the_high_bit(status);
    }
    if status & MAX_BIT == 0 {
        Ok(())
    } else {
        Err(status)
    }
}

/// A status code is an error exactly when its high bit is set.
pub proof fn errors_have_the_high_bit(status: Status)
    ensures
        is_error(status) <==> status & MAX_BIT != 0,
{
    let max = usize::MAX;
    assert(max <= !0usize) by (bit_vector);
    assert(status & !(!0usize >> 1) != 0 <==> status > !0usize / 2) by (bit_vector);
}

/// The high bit is worth half of all codes.
pub proof fn high_bit_is_half_of_the_codes()
    ensures
        MAX_BIT == usize::MAX / 2 + 1,
{
    errors_have_the_high_bit(MAX_BIT);
    let max = usize::MAX;
    assert(max <= !0usize) by (bit_vector);
    assert(!(!0usize >> 1) == !0usize / 2 + 1) by (bit_vector);
}

/// What a status code says goes by its high bit alone: it is success exactly
/// when the bit is clear, and otherwise it is the error with that very code.
pub proof fn result_goes_by_the_high_bit(status: Status)
    ensures
        status_result(status) is Ok <==> status & MAX_BIT == 0,
        status_result(status) is Ok <==> status <= usize::MAX / 2,
        status & MAX_BIT != 0 ==> status_result(status) == Err::<(), Status>(status),
{
    errors_have_the_high_bit(status);
}

/// Whatever a success reports, the same code with the high bit set is an error.
pub proof fn high_bit_turns_success_into_error(status: Status)
    requires
        status_result(status) is Ok,
    ensures
        status_result(status | MAX_BIT) == Err::<(), Status>(status | MAX_BIT),
        status | MAX_BIT == status + MAX_BIT,
{
    let code = status | MAX_BIT;
    errors_have_the_high_bit(status);
    errors_have_the_high_bit(code);
    assert((status | !(!0usize >> 1)) & !(!0usize >> 1) != 0) by (bit_vector);
    assert(status & !(!0usize >> 1) == 0 ==> status | !(!0usize >> 1) == status + !(!0usize >> 1))
        by (bit_vector);
}

} // verus!
