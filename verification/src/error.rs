//! Win32 error codes as HRESULTs, and what the registry enumeration calls
//! leave in their buffers.
use vstd::prelude::*;

verus! {

/// The call succeeded.
pub const ERROR_SUCCESS: u32 = 0;
/// The enumeration has no more items.
pub const ERROR_NO_MORE_ITEMS: u32 = 259;

/// The HRESULT of a Win32 error: its low 16 bits in facility 7 with the
/// failure bit set (`0x8007xxxx`), read as a signed 32-bit number.
pub open spec fn hresult_of(err: u32) -> int {
    (err % 0x10000) + 0x80070000 - 0x1_0000_0000
}

/// The HRESULT for a Win32 error code, or `None` for success.
pub fn hresult_from_win32(err: u32) -> (hr: Option<i32>)
    ensures
        err == ERROR_SUCCESS ==> hr is None,
        err != ERROR_SUCCESS ==> hr == Some(hresult_of(err) as i32),
{
    if err == ERROR_SUCCESS {
        return None;
    }
    let low: u32 = err & 0xFFFF;
    assert(low == err % 0x10000) by (bit_vector)
        requires
            low == err & 0xFFFF,
    ;
    let bits: u32 = low | 0x80070000;
    assert(bits == low + 0x80070000) by (bit_vector)
        requires
            bits == low | 0x80070000,
            low < 0x10000,
    ;
    let hr: i32 = (bits as i64 - 0x1_0000_0000i64) as i32;
    Some(hr)
}

/// Every failure becomes a negative HRESULT, and the error code is found
/// again in its low 16 bits.
pub proof fn lemma_hresult_is_failure(err: u32)
    ensures
        hresult_of(err) < 0,
        hresult_of(err) >= i32::MIN,
        (hresult_of(err) + 0x1_0000_0000) % 0x10000 == err % 0x10000,
{
}

/// The length of the name or data kept after an enumeration call: what the
/// call reported on success, nothing otherwise.
pub fn enum_kept_len(status: u32, reported: u32) -> (n: usize)
    ensures
        n == if status == ERROR_SUCCESS {
            reported as int
        } else {
            0
        },
{
    if status == ERROR_SUCCESS {
        reported as usize
    } else {
        0
    }
}

} // verus!
