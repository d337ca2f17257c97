//! Bitfields packed into a `u32`, as the ABI lays out some structure fields.

use vstd::prelude::*;

verus! {

/// The mask of a field of `width` bits, at bit zero.
pub open spec fn field_mask(width: u32) -> u32 {
    !(0xffff_ffffu32 << width)
}

/// Whether `[start, end)` is a field of a `u32` that the mask can describe.
pub open spec fn valid_field(start: u32, end: u32) -> bool {
    start < end && end <= 32 && end - start < 32
}

/// The value of bits `[start, end)` of `value`.
pub open spec fn field_of(value: u32, start: u32, end: u32) -> u32 {
    (value & (field_mask((end - start) as u32) << start)) >> start
}

/// `value` with bits `[start, end)` replaced by the low bits of `field`.
pub open spec fn with_field_of(value: u32, start: u32, end: u32, field: u32) -> u32 {
    (value & !(field_mask((end - start) as u32) << start)) | ((field & field_mask((end - start) as u32)) << start)
}

/// Reads bits `[start, end)` of `value`.
pub fn get_field(value: u32, start: u32, end: u32) -> (r: u32)
    requires
        valid_field(start, end),
    ensures
        r == field_of(value, start, end),
{
    let width = end - start;
    let mask = !(0xffff_ffffu32 << width);
    (value & (mask << start)) >> start
}

/// Replaces bits `[start, end)` of `value` by the low bits of `field`.
pub fn with_field(value: u32, start: u32, end: u32, field: u32) -> (r: u32)
    requires
        valid_field(start, end),
    ensures
        r == with_field_of(value, start, end, field),
{
    let width = end - start;
    let mask = !(0xffff_ffffu32 << width);
    (value & !(mask << start)) | ((field & mask) << start)
}

/// Writing a field then reading it gives back the low bits written, and
/// leaves every other bit as it was.
pub proof fn lemma_with_then_get(value: u32, start: u32, end: u32, field: u32)
    requires
        valid_field(start, end),
    ensures
        field_of(with_field_of(value, start, end, field), start, end) == field & field_mask((end - start) as u32),
        with_field_of(value, start, end, field) & !(field_mask((end - start) as u32) << start)
            == value & !(field_mask((end - start) as u32) << start),
{
    let w = (end - start) as u32;
    let m = field_mask(w);
    assert(m == !(0xffff_ffffu32 << w));
    assert(w < 32u32);
    assert(start < 32u32);
    let n = with_field_of(value, start, end, field);
    assert(n == (value & !(m << start)) | ((field & m) << start));
    assert(((((value & !(m << start)) | ((field & m) << start)) & (m << start)) >> start) == field & m) by (bit_vector)
        requires
            m == !(0xffff_ffffu32 << w),
            w < 32u32,
            start < 32u32,
            w <= 32u32 - start,
    ;
    assert((((value & !(m << start)) | ((field & m) << start)) & !(m << start)) == value & !(m << start)) by (bit_vector)
        requires
            m == !(0xffff_ffffu32 << w),
            w < 32u32,
            start < 32u32,
            w <= 32u32 - start,
    ;
}

} // verus!
