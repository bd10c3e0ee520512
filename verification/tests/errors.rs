use native::error::{enum_kept_len, hresult_from_win32, ERROR_NO_MORE_ITEMS, ERROR_SUCCESS};

#[test]
fn win32_errors_as_hresults() {
    assert_eq!(hresult_from_win32(ERROR_SUCCESS), None);
    assert_eq!(hresult_from_win32(5), Some(0x80070005u32 as i32));
    assert_eq!(hresult_from_win32(2), Some(-2147024894));
    assert_eq!(hresult_from_win32(ERROR_NO_MORE_ITEMS), Some(0x80070103u32 as i32));
    assert_eq!(hresult_from_win32(0x12345), Some(0x80072345u32 as i32));
}

#[test]
fn kept_lengths() {
    assert_eq!(enum_kept_len(ERROR_SUCCESS, 12), 12);
    assert_eq!(enum_kept_len(ERROR_NO_MORE_ITEMS, 12), 0);
    assert_eq!(enum_kept_len(234, 7), 0);
}
