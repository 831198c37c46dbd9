use fernfs::protocol::xdr::utils::{invalid_data, padding_len, ALIGNMENT};
use std::io;

#[test]
fn test_padding_len() {
    assert_eq!(padding_len(0), 0);
    assert_eq!(padding_len(1), 3);
    assert_eq!(padding_len(2), 2);
    assert_eq!(padding_len(3), 1);
    assert_eq!(padding_len(4), 0);
    assert_eq!(padding_len(5), 3);
    assert_eq!(padding_len(6), 2);
    assert_eq!(padding_len(7), 1);
    assert_eq!(padding_len(8), 0);
}

#[test]
fn padding_len_of_large_lengths() {
    assert_eq!(ALIGNMENT, 4);
    assert_eq!(padding_len(usize::MAX), 1);
    assert_eq!(padding_len(usize::MAX - 3), 0);
    assert_eq!((1021 + padding_len(1021)) % 4, 0);
}

#[test]
fn test_invalid_data() {
    let error = invalid_data("Test error message");
    assert_eq!(error.kind(), io::ErrorKind::InvalidData);
    assert_eq!(format!("{}", error), "Test error message");
}
