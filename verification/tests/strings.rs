use borgtui::emitter::format_bytes;
use borgtui::strutil::{
    archive_name, find_double_colon, format_elapsed, format_timestamp, padded_dec, repo_name_of,
    str_eq, str_le, trim, u64_to_dec,
};

#[test]
fn decimal_rendering() {
    assert_eq!(u64_to_dec(0), "0");
    assert_eq!(u64_to_dec(7), "7");
    assert_eq!(u64_to_dec(42), "42");
    assert_eq!(u64_to_dec(90210), "90210");
    assert_eq!(u64_to_dec(u64::MAX), "18446744073709551615");
}

#[test]
fn zero_padding() {
    assert_eq!(padded_dec(3, 2), "03");
    assert_eq!(padded_dec(42, 2), "42");
    assert_eq!(padded_dec(123, 2), "123");
    assert_eq!(padded_dec(7, 4), "0007");
    assert_eq!(padded_dec(2024, 4), "2024");
    assert_eq!(padded_dec(12345, 4), "12345");
}

#[test]
fn elapsed_formatting() {
    assert_eq!(format_elapsed(0), "00:00:00");
    assert_eq!(format_elapsed(3723), "01:02:03");
    assert_eq!(format_elapsed(59), "00:00:59");
    assert_eq!(format_elapsed(3600 * 100), "100:00:00");
}

#[test]
fn timestamp_formatting() {
    assert_eq!(format_timestamp(2024, 3, 7, 9, 5, 1), "2024-03-07:09:05:01");
    assert_eq!(format_timestamp(987, 12, 31, 23, 59, 59), "0987-12-31:23:59:59");
}

#[test]
fn archive_names_carry_profile_and_timestamp() {
    assert_eq!(
        archive_name("dev", 2024, 3, 7, 9, 5, 1),
        "dev-2024-03-07:09:05:01"
    );
}

#[test]
fn trimming() {
    assert_eq!(trim("  hunter2\n"), "hunter2");
    assert_eq!(trim("\t\r\n "), "");
    assert_eq!(trim("no-space"), "no-space");
    assert_eq!(trim("  inner space  "), "inner space");
}

#[test]
fn lexicographic_comparison() {
    assert!(str_le("", "a"));
    assert!(str_le("a", "a"));
    assert!(str_le("/a/b", "/a/bb"));
    assert!(!str_le("/a/c", "/a/bb"));
    assert!(str_le("abc", "abd"));
    assert!(!str_le("b", "ab"));
    assert!(str_eq("same", "same"));
    assert!(!str_eq("same", "Same"));
}

#[test]
fn mount_selector_splitting() {
    assert_eq!(find_double_colon("repo::archive"), Some(4));
    assert_eq!(find_double_colon("no separator"), None);
    assert_eq!(repo_name_of("repo::archive"), "repo");
    assert_eq!(repo_name_of("/backup/repo"), "/backup/repo");
    assert_eq!(repo_name_of("a::b::c"), "a");
}

#[test]
fn byte_formatting() {
    assert_eq!(format_bytes(0), "0 B");
    assert_eq!(format_bytes(500), "500 B");
    assert_eq!(format_bytes(1024), "1 KiB");
    assert_eq!(format_bytes(1536), "1 KiB");
    assert_eq!(format_bytes(1024 * 1024), "1 MiB");
    assert_eq!(format_bytes(5 * 1024 * 1024 * 1024), "5 GiB");
    assert_eq!(format_bytes(3 * 1024 * 1024 * 1024 * 1024), "3 TiB");
    assert_eq!(format_bytes(2048 * 1024 * 1024 * 1024 * 1024), "2 PiB");
}
