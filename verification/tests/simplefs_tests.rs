use kernel_console::simplefs::{pack, unpack};

fn entry(name: &str, content: &[u8]) -> (String, Vec<u8>) {
    (name.to_string(), content.to_vec())
}

#[test]
fn pack_single_entry_exact_bytes() {
    let packed = pack(vec![entry("ab", &[1, 2])]);
    assert_eq!(packed, vec![b'a', b'b', 0, 2, 0, 0, 0, 1, 2]);
}

#[test]
fn pack_empty_list_is_empty() {
    assert_eq!(pack(vec![]), Vec::<u8>::new());
}

#[test]
fn unpack_single_entry() {
    let fs = vec![b'h', b'i', 0, 1, 0, 0, 0, 7];
    let files = unpack(fs);
    assert_eq!(files, vec![entry("hi", &[7])]);
}

#[test]
fn unpack_zero_length_name_returns_empty_list() {
    assert_eq!(unpack(vec![0]), vec![]);
    assert_eq!(unpack(vec![0, 3, 0, 0, 0, b'a', b'b', b'c']), vec![]);
}

#[test]
fn unpack_empty_buffer_returns_empty_list() {
    assert_eq!(unpack(vec![]), vec![]);
}

#[test]
fn unpack_truncated_length_field_drops_entry() {
    // name, nul, then only two bytes of the length field
    assert_eq!(unpack(vec![b'h', b'i', 0, 1, 0]), vec![]);
}

#[test]
fn unpack_truncated_content_drops_entry() {
    // length says five bytes, only two follow
    assert_eq!(unpack(vec![b'h', b'i', 0, 5, 0, 0, 0, 1, 2]), vec![]);
}

#[test]
fn unpack_name_without_nul_drops_entry() {
    assert_eq!(unpack(vec![b'a', b'b', b'c']), vec![]);
}

#[test]
fn unpack_stops_at_trailing_nul() {
    let fs = vec![b'a', 0, 1, 0, 0, 0, 9, 0, 5, 5, 5, 5, 5];
    assert_eq!(unpack(fs), vec![entry("a", &[9])]);
}

#[test]
fn unpack_two_entries() {
    let mut fs = vec![b'a', 0, 1, 0, 0, 0, 1];
    fs.extend_from_slice(&[b'b', b'2', 0, 2, 0, 0, 0, 8, 9]);
    assert_eq!(unpack(fs), vec![entry("a", &[1]), entry("b2", &[8, 9])]);
}

#[test]
fn round_trip_preserves_entries() {
    let entries = vec![
        entry("hello.txt", b"some contents"),
        entry("x", &[]),
        entry("prog.wasm", &[0, 97, 115, 109, 255]),
    ];
    assert_eq!(unpack(pack(entries.clone())), entries);
}

#[test]
fn round_trip_with_non_ascii_name() {
    let entries = vec![entry("caf\u{e9}.txt", &[1, 2, 3])];
    assert_eq!(unpack(pack(entries.clone())), entries);
}

#[test]
fn unpack_reads_invalid_utf8_name_byte_per_byte() {
    // 0xFF alone is not well-formed UTF-8: the name falls back to one
    // character per byte
    let fs = vec![0xff, 0, 1, 0, 0, 0, 7];
    let files = unpack(fs);
    assert_eq!(files.len(), 1);
    assert_eq!(files[0].0, "\u{ff}");
    assert_eq!(files[0].1, vec![7]);
}

#[test]
fn round_trip_with_empty_content() {
    let entries = vec![entry("only", &[])];
    assert_eq!(unpack(pack(entries.clone())), entries);
}
