//! Error codes of the system interface.

use vstd::prelude::*;

verus! {

pub const ERROR_NOACCESS: u32 = 998;

pub const ERROR_IO_INCOMPLETE: u32 = 996;

pub const ERROR_IO_PENDING: u32 = 997;

pub const ERROR_NOT_FOUND: u32 = 1168;

pub const WAIT_TIMEOUT: u32 = 258;

/// The result code that carries the system error `error`: zero and codes with
/// the top bit set stand for themselves, any other gets the failure bit and the
/// Win32 facility around its low 16 bits.
pub open spec fn result_code(error: u32) -> int {
    if error == 0 {
        0
    } else if error >= 0x8000_0000 {
        error - 0x1_0000_0000
    } else {
        0x8007_0000 - 0x1_0000_0000 + error % 0x1_0000
    }
}

pub fn hresult_from_win32(error: u32) -> (code: i32)
    ensures
        code == result_code(error),
{
    if error == 0 {
        0
    } else if error >= 0x8000_0000 {
        (error as i64 - 0x1_0000_0000) as i32
    } else {
        (0x8007_0000i64 - 0x1_0000_0000i64 + (error % 0x1_0000) as i64) as i32
    }
}

/// A small system error is told apart by its result code: the code is
/// negative, two errors have different ones, and 5 gives 0x80070005.
pub proof fn lemma_result_codes_tell_errors_apart(a: u32, b: u32)
    requires
        0 < a < 0x1_0000,
        0 < b < 0x1_0000,
    ensures
        result_code(a) == a - 2147024896,
        result_code(a) < 0,
        a != b ==> result_code(a) != result_code(b),
        result_code(0) == 0,
{
}

} // verus!
