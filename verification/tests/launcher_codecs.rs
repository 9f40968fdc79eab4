use sandbox::encoding::format_decimal;
use sandbox::encoding::parse_decimal;
use sandbox::launcher::decode_errno;
use sandbox::launcher::encode_errno;
use sandbox::launcher::parse_fd_name;
use sandbox::launcher::should_close_fd;

#[test]
fn decimal_rendering_is_canonical() {
    assert_eq!(format_decimal(0), b"0".to_vec());
    assert_eq!(format_decimal(7), b"7".to_vec());
    assert_eq!(format_decimal(16384), b"16384".to_vec());
    assert_eq!(format_decimal(u64::MAX), b"18446744073709551615".to_vec());
}

#[test]
fn decimal_parsing_round_trips_and_rejects_junk() {
    for n in [0u64, 1, 9, 10, 4096, 2147483647] {
        assert_eq!(parse_decimal(&format_decimal(n), u64::MAX), Some(n));
    }
    assert_eq!(parse_decimal(&b"007".to_vec(), u64::MAX), Some(7));
    assert_eq!(parse_decimal(&Vec::new(), u64::MAX), None);
    assert_eq!(parse_decimal(&b"12a".to_vec(), u64::MAX), None);
    assert_eq!(parse_decimal(&b"-3".to_vec(), u64::MAX), None);
    assert_eq!(parse_decimal(&b"100".to_vec(), 99), None);
    assert_eq!(parse_decimal(&b"99".to_vec(), 99), Some(99));
}

#[test]
fn errno_travels_as_four_big_endian_bytes() {
    assert_eq!(encode_errno(0x01020304), vec![1, 2, 3, 4]);
    assert_eq!(encode_errno(2), vec![0, 0, 0, 2]);
    assert_eq!(decode_errno(&vec![0, 0, 0, 2]), 2);
    for errno in [0u32, 1, 13, 0xdeadbeef, u32::MAX] {
        assert_eq!(decode_errno(&encode_errno(errno)), errno);
    }
}

#[test]
fn descriptor_names_parse_as_descriptors() {
    assert_eq!(parse_fd_name(&b"0".to_vec()), Some(0));
    assert_eq!(parse_fd_name(&b"27".to_vec()), Some(27));
    assert_eq!(parse_fd_name(&b"2147483647".to_vec()), Some(2147483647));
    assert_eq!(parse_fd_name(&b"2147483648".to_vec()), None);
    assert_eq!(parse_fd_name(&b".".to_vec()), None);
    assert_eq!(parse_fd_name(&b"".to_vec()), None);
}

#[test]
fn only_unlisted_descriptors_are_closed() {
    let keep = vec![0, 1, 2, 5, 7];
    assert!(!should_close_fd(0, &keep));
    assert!(!should_close_fd(5, &keep));
    assert!(should_close_fd(3, &keep));
    assert!(should_close_fd(42, &keep));
    assert!(should_close_fd(3, &Vec::new()));
}
