use ampfuzz::depot::file_name::{amp_file_name, amp_file_name_from, get_file_name};
use ampfuzz::text::{decimal, hex};

#[test]
fn decimal_text() {
    assert_eq!(decimal(0), "0");
    assert_eq!(decimal(7), "7");
    assert_eq!(decimal(10), "10");
    assert_eq!(decimal(1234567890), "1234567890");
    assert_eq!(decimal(u64::MAX), u64::MAX.to_string());
}

#[test]
fn hex_text() {
    assert_eq!(hex(0), "0");
    assert_eq!(hex(255), "ff");
    assert_eq!(hex(0xdead_beef), "deadbeef");
    assert_eq!(hex(u64::MAX), "ffffffffffffffff");
}

#[test]
fn input_file_names() {
    assert_eq!(get_file_name(0), "id_0");
    assert_eq!(get_file_name(42), "id_42");
}

#[test]
fn amp_file_name_holds_factor_path_and_digest() {
    let name = amp_file_name("002.75", 0xabc, b"hello world");
    assert_eq!(name, "amp_002.75_abc_5eb63bbbe01eeed093cb22bb8f5acdc3");
    let empty = amp_file_name("000.00", 0, b"");
    assert_eq!(empty, "amp_000.00_0_d41d8cd98f00b204e9800998ecf8427e");
    assert_eq!(amp_file_name_from("1.00", 16, &[0x00, 0x0f, 0xf0]), "amp_1.00_10_000ff0");
}
