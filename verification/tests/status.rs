use efi::{check_status, MAX_BIT};

#[test]
fn success_is_ok() {
    assert_eq!(check_status(0), Ok(()));
}

#[test]
fn warnings_are_ok() {
    assert_eq!(check_status(1), Ok(()));
    assert_eq!(check_status(MAX_BIT - 1), Ok(()));
    assert_eq!(check_status(usize::MAX / 2), Ok(()));
}

#[test]
fn the_high_bit_marks_an_error() {
    assert_eq!(MAX_BIT, usize::MAX / 2 + 1);
    assert_eq!(check_status(MAX_BIT), Err(MAX_BIT));
    assert_eq!(check_status(MAX_BIT | 9), Err(MAX_BIT | 9));
    assert_eq!(check_status(usize::MAX), Err(usize::MAX));
}
