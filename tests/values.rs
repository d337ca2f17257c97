use vulkanalia::bits::{get_field, with_field};
use vulkanalia::bytecode::BytecodeError;
use vulkanalia::codes::{ErrorCode, SuccessCode};
use vulkanalia::strings::{ByteArray, StringArray};
use vulkanalia::version::decimal_string;
use vulkanalia::Version;

#[test]
fn version_renders_as_dotted_decimal() {
    assert_eq!(Version::new(1, 3, 250).to_string(), "1.3.250");
    assert_eq!(Version::new(0, 0, 0).to_string(), "0.0.0");
    assert_eq!(Version::new(4294967295, 10, 9).to_string(), "4294967295.10.9");
    assert_eq!(decimal_string(1000), "1000");
}

#[test]
fn version_default_and_conversions() {
    assert_eq!(Version::default(), Version::new(1, 0, 0));
    let raw: u32 = Version::new(1, 2, 3).into();
    assert_eq!(raw, 4202499);
    assert_eq!(Version::from(raw), Version::new(1, 2, 3));
    assert_eq!(Version::from(u32::MAX), Version::new(1023, 1023, 4095));
    // a part too wide for its bits spills into its neighbour
    assert_eq!(Version::new(0, 1024, 0).to_raw(), 1 << 22);
}

#[test]
fn string_array_lossy_text() {
    assert_eq!(StringArray::<8>::from_bytes(b"ab\xffc\0zz").to_string_lossy(), "ab\u{FFFD}c");
    assert_eq!(StringArray::<8>::from_bytes(b"").to_string_lossy(), "");
    assert_eq!(StringArray::<3>::from_bytes(b"abc").to_string_lossy(), "ab");
}

#[test]
fn byte_array_holds_its_bytes() {
    let a = ByteArray::<4>::from_array([1, 2, 3, 4]);
    assert_eq!(a.as_slice(), &[1, 2, 3, 4]);
    assert_eq!(ByteArray::<3>::zeroed().as_slice(), &[0, 0, 0]);
    assert_eq!(a.clone(), a);
}

#[test]
fn field_written_then_read() {
    let v = 0xdead_beefu32;
    let w = with_field(v, 8, 20, 0x1_2345);
    assert_eq!(get_field(w, 8, 20), 0x345);
    assert_eq!(w & !(0xfff << 8), v & !(0xfff << 8));
    assert_eq!(get_field(u32::MAX, 0, 31), 0x7fff_ffff);
}

#[test]
fn codes_have_their_names() {
    assert_eq!(ErrorCode::from_raw(-1).name(), Some("OUT_OF_HOST_MEMORY"));
    assert_eq!(ErrorCode::from_raw(-1000001004).name(), Some("OUT_OF_DATE_KHR"));
    assert_eq!(ErrorCode::from_raw(-77).name(), None);
    assert_eq!(SuccessCode::from_raw(5).name(), Some("INCOMPLETE"));
    assert_eq!(SuccessCode::from_raw(1000001003).name(), Some("SUBOPTIMAL_KHR"));
    assert_eq!(SuccessCode::from_raw(6).name(), None);
}

#[test]
fn bytecode_errors_read_as_sentences() {
    assert_eq!(BytecodeError::Alloc.to_string(), "failed to allocate SPIR-V bytecode buffer");
    assert_eq!(BytecodeError::Length(13).to_string(), "invalid SPIR-V bytecode buffer length (13)");
}
