use iboot_layout::detect::is_supported;
use iboot_layout::error::ResolveError;
use iboot_layout::layout::detect_and_resolve;
use iboot_layout::layout::resolve;
use iboot_layout::layout::Endianness;
use iboot_layout::layout::Semantics;
use iboot_layout::layout::SymbolKind;
use iboot_layout::version::version_major;

const TAG_OFFSET: usize = 0x200;
const VERSION_OFFSET: usize = 0x286;
const VERSION_LEN: usize = 0x7a;
const BASE_OFFSET_MODERN: usize = 0x300;
const BASE_OFFSET_LEGACY: usize = 0x318;

fn blank_image(len: usize) -> Vec<u8> {
    vec![0u8; len]
}

fn put(buf: &mut [u8], offset: usize, bytes: &[u8]) {
    buf[offset..offset + bytes.len()].copy_from_slice(bytes);
}

/// Writes `text` into the version window; the rest of the window stays NUL,
/// which is valid UTF-8 padding.
fn put_version(buf: &mut [u8], text: &str) {
    assert!(text.len() <= VERSION_LEN);
    put(buf, VERSION_OFFSET, text.as_bytes());
}

#[test]
fn version_major_parses_leading_component() {
    let mut buf = blank_image(0x300);
    put_version(&mut buf, "7429.0.0.0.1");
    assert_eq!(version_major(&buf), Ok(7429));
}

#[test]
fn version_major_ignores_trailing_window_content() {
    let mut buf = blank_image(0x300);
    put_version(&mut buf, "6603.0.0.1.0 release build");
    assert_eq!(version_major(&buf), Ok(6603));
}

#[test]
fn version_major_accepts_plus_sign() {
    // Rust's unsigned-integer grammar allows one leading plus sign.
    let mut buf = blank_image(0x300);
    put_version(&mut buf, "+6603.0.0");
    assert_eq!(version_major(&buf), Ok(6603));
}

#[test]
fn version_major_truncated_window() {
    let buf = blank_image(0x2ff);
    assert_eq!(version_major(&buf), Err(ResolveError::Truncated));
}

#[test]
fn round_trip_modern_base_address() {
    // Version text 6603.0.0.1.0, padded to the full window, with a
    // little-endian word at the modern offset: resolution returns that word.
    let value: u64 = 0x0123_4567_89ab_cdef;
    let mut buf = blank_image(0x308);
    put_version(&mut buf, "6603.0.0.1.0");
    put(&mut buf, BASE_OFFSET_MODERN, &value.to_le_bytes());
    let layout = resolve(&buf).expect("resolution should succeed");
    assert_eq!(layout.base_address, value);
}

#[test]
fn major_6602_reads_legacy_offset() {
    let modern: u64 = 0x1111_1111_1111_1111;
    let legacy: u64 = 0x2222_2222_2222_2222;
    let mut buf = blank_image(0x320);
    put_version(&mut buf, "6602.0.0");
    put(&mut buf, BASE_OFFSET_MODERN, &modern.to_le_bytes());
    put(&mut buf, BASE_OFFSET_LEGACY, &legacy.to_le_bytes());
    let layout = resolve(&buf).expect("resolution should succeed");
    assert_eq!(layout.base_address, legacy);
}

#[test]
fn major_6603_reads_modern_offset() {
    let modern: u64 = 0x1111_1111_1111_1111;
    let legacy: u64 = 0x2222_2222_2222_2222;
    let mut buf = blank_image(0x320);
    put_version(&mut buf, "6603.0.0");
    put(&mut buf, BASE_OFFSET_MODERN, &modern.to_le_bytes());
    put(&mut buf, BASE_OFFSET_LEGACY, &legacy.to_le_bytes());
    let layout = resolve(&buf).expect("resolution should succeed");
    assert_eq!(layout.base_address, modern);
}

#[test]
fn invalid_utf8_window_is_encoding_error() {
    let mut buf = blank_image(0x320);
    put_version(&mut buf, "6603.0.0");
    // A lone continuation byte inside the window is not valid UTF-8.
    buf[VERSION_OFFSET + 0x40] = 0xff;
    assert_eq!(resolve(&buf), Err(ResolveError::InvalidVersionEncoding));
}

#[test]
fn non_numeric_version_is_format_error() {
    let mut buf = blank_image(0x320);
    put_version(&mut buf, "x.0.0");
    assert_eq!(resolve(&buf), Err(ResolveError::InvalidVersionFormat));
}

#[test]
fn empty_first_component_is_format_error() {
    let mut buf = blank_image(0x320);
    put_version(&mut buf, ".6603.0");
    assert_eq!(resolve(&buf), Err(ResolveError::InvalidVersionFormat));
}

#[test]
fn lone_plus_sign_is_format_error() {
    let mut buf = blank_image(0x320);
    put_version(&mut buf, "+.0.0");
    assert_eq!(resolve(&buf), Err(ResolveError::InvalidVersionFormat));
}

#[test]
fn oversized_major_is_format_error() {
    // More than 64 bits worth of digits.
    let mut buf = blank_image(0x320);
    put_version(&mut buf, "99999999999999999999999.0");
    assert_eq!(resolve(&buf), Err(ResolveError::InvalidVersionFormat));
}

#[test]
fn multibyte_text_after_major_is_accepted() {
    // Non-ASCII text is fine beyond the leading component.
    let mut buf = blank_image(0x320);
    put_version(&mut buf, "6602.béta");
    let layout = resolve(&buf).expect("resolution should succeed");
    assert_eq!(layout.base_address, 0);
}

#[test]
fn multibyte_first_component_is_format_error() {
    // Valid UTF-8, but the leading component is not numeric.
    let mut buf = blank_image(0x320);
    put_version(&mut buf, "é603.0.0");
    assert_eq!(resolve(&buf), Err(ResolveError::InvalidVersionFormat));
}

#[test]
fn version_without_dot_is_format_error() {
    // With no dot the leading component is the whole window, NUL padding
    // included, and NUL is not a digit.
    let mut buf = blank_image(0x320);
    put_version(&mut buf, "6603");
    assert_eq!(resolve(&buf), Err(ResolveError::InvalidVersionFormat));
}

#[test]
fn image_too_short_for_version_window_is_truncated() {
    let buf = blank_image(0x2ff);
    assert_eq!(resolve(&buf), Err(ResolveError::Truncated));
}

#[test]
fn image_too_short_for_modern_base_field_is_truncated() {
    let mut buf = blank_image(0x304);
    put_version(&mut buf, "6603.0.0");
    assert_eq!(resolve(&buf), Err(ResolveError::Truncated));
}

#[test]
fn image_too_short_for_legacy_base_field_is_truncated() {
    let mut buf = blank_image(0x310);
    put_version(&mut buf, "6602.0.0");
    assert_eq!(resolve(&buf), Err(ResolveError::Truncated));
}

#[test]
fn layout_covers_whole_image() {
    let base: u64 = 0x1_8001_c000;
    let len: usize = 0x2000;
    let mut buf = blank_image(len);
    put_version(&mut buf, "6603.0.0.1.0");
    put(&mut buf, BASE_OFFSET_MODERN, &base.to_le_bytes());
    let layout = resolve(&buf).expect("resolution should succeed");
    assert_eq!(layout.base_address, base);
    assert_eq!(layout.region.start, base);
    assert_eq!(layout.region.length, len as u64);
    assert_eq!(layout.region.backing_offset, 0);
    assert_eq!(layout.region.backing_length, len as u64);
    assert!(layout.region.readable);
    assert!(!layout.region.writable);
    assert!(layout.region.executable);
    assert!(layout.region.contains_code);
    assert!(layout.region.contains_data);
    assert_eq!(layout.region.semantics, Semantics::ReadOnlyCode);
    assert_eq!(layout.entry_point, base);
    assert_eq!(layout.symbol.kind, SymbolKind::Function);
    assert_eq!(layout.symbol.address, base);
    assert_eq!(layout.symbol.name(), "_start");
    assert_eq!(layout.architecture(), "aarch64");
    assert_eq!(layout.address_size(), 8);
    assert_eq!(layout.default_endianness(), Endianness::Little);
}

#[test]
fn resolve_twice_gives_identical_layouts() {
    let mut buf = blank_image(0x2000);
    put_version(&mut buf, "7429.0.0.0.1");
    put(&mut buf, BASE_OFFSET_MODERN, &0x1_8001_c000u64.to_le_bytes());
    let first = resolve(&buf).expect("resolution should succeed");
    let second = resolve(&buf).expect("resolution should succeed");
    assert_eq!(first, second);
}

#[test]
fn end_to_end_iboot_image() {
    let len: usize = 0x2000;
    let mut buf = blank_image(len);
    put(&mut buf, TAG_OFFSET, b"iBoot");
    put_version(&mut buf, "7429.0.0.0.1");
    put(
        &mut buf,
        BASE_OFFSET_MODERN,
        &[0x00, 0xc0, 0x01, 0x18, 0x00, 0x00, 0x00, 0x00],
    );
    assert!(is_supported(&buf));
    let base = u64::from_le_bytes([0x00, 0xc0, 0x01, 0x18, 0x00, 0x00, 0x00, 0x00]);
    assert_eq!(base, 0x1801_c000);
    let layout = resolve(&buf).expect("resolution should succeed");
    assert_eq!(layout.base_address, base);
    assert_eq!(layout.region.start, base);
    assert_eq!(layout.region.length, len as u64);
    assert_eq!(layout.entry_point, base);
    assert_eq!(layout.symbol.address, base);
    assert_eq!(layout.symbol.name(), "_start");
}

#[test]
fn end_to_end_large_base_address() {
    // The same scenario with a base address above 32 bits.
    let len: usize = 0x2000;
    let base: u64 = 0x1_8001_c000;
    let mut buf = blank_image(len);
    put(&mut buf, TAG_OFFSET, b"iBoot");
    put_version(&mut buf, "7429.0.0.0.1");
    put(&mut buf, BASE_OFFSET_MODERN, &base.to_le_bytes());
    assert!(is_supported(&buf));
    let layout = detect_and_resolve(&buf).expect("resolution should succeed");
    assert_eq!(layout.base_address, base);
    assert_eq!(layout.region.start, base);
    assert_eq!(layout.region.length, len as u64);
    assert_eq!(layout.entry_point, base);
    assert_eq!(layout.symbol.address, base);
}

#[test]
fn detect_and_resolve_refuses_unrecognized_image() {
    let mut buf = blank_image(0x2000);
    put_version(&mut buf, "7429.0.0.0.1");
    // No tag at the tag offset.
    assert_eq!(
        detect_and_resolve(&buf),
        Err(ResolveError::UnsupportedFormat)
    );
}

#[test]
fn detect_and_resolve_passes_resolution_error_through() {
    let mut buf = blank_image(0x304);
    put(&mut buf, TAG_OFFSET, b"iBEC");
    put_version(&mut buf, "6603.0.0");
    assert_eq!(detect_and_resolve(&buf), Err(ResolveError::Truncated));
}
