use vstd::prelude::*;
use vstd::utf8::valid_utf8;

verus! {

/// Little-endian 32-bit value of the four bytes at `i`.
pub open spec fn u32_le(b: Seq<u8>, i: int) -> u32 {
    (b[i] as u32) | ((b[i + 1] as u32) << 8u32) | ((b[i + 2] as u32) << 16u32) | ((b[i
        + 3] as u32) << 24u32)
}

/// Little-endian 64-bit value of the eight bytes at `i`.
pub open spec fn u64_le(b: Seq<u8>, i: int) -> u64 {
    (u32_le(b, i) as u64) | ((u32_le(b, i + 4) as u64) << 32u64)
}

/// A boolean byte is 0 or 1.
pub open spec fn bool_ok(v: u8) -> bool {
    v <= 1
}

/// A 32-bit float pattern is legal unless it is a signaling NaN: exponent
/// all ones, quiet bit clear, mantissa nonzero.
pub open spec fn f32_ok(bits: u32) -> bool {
    !(bits & 0x7F80_0000 == 0x7F80_0000 && bits & 0x0040_0000 == 0 && bits & 0x003F_FFFF != 0)
}

/// The 64-bit counterpart of `f32_ok`: 11-bit exponent, 52-bit mantissa.
pub open spec fn f64_ok(bits: u64) -> bool {
    !(bits & 0x7FF0_0000_0000_0000 == 0x7FF0_0000_0000_0000 && bits & 0x0008_0000_0000_0000
        == 0 && bits & 0x0007_FFFF_FFFF_FFFF != 0)
}

/// A Unicode scalar value: at most U+10FFFF and no surrogate.
pub open spec fn char_ok(v: u32) -> bool {
    v <= 0x10FFFF && !(0xD800 <= v && v <= 0xDFFF)
}

/// Bytes of a NUL-terminated string: one NUL, at the end.
pub open spec fn cstr_ok(s: Seq<u8>) -> bool {
    &&& s.len() > 0
    &&& s[s.len() - 1] == 0
    &&& forall|i: int| 0 <= i < s.len() - 1 ==> s[i] != 0
}

pub fn read_u32(b: &[u8], i: usize) -> (r: u32)
    requires
        i + 4 <= b@.len(),
    ensures
        r == u32_le(b@, i as int),
{
    (b[i] as u32) | ((b[i + 1] as u32) << 8u32) | ((b[i + 2] as u32) << 16u32) | ((b[i
        + 3] as u32) << 24u32)
}

pub fn read_u64(b: &[u8], i: usize) -> (r: u64)
    requires
        i + 8 <= b@.len(),
    ensures
        r == u64_le(b@, i as int),
{
    let n = b.len();
    assert(i + 8 <= n);
    let lo = read_u32(b, i);
    let hi = read_u32(b, i + 4);
    (lo as u64) | ((hi as u64) << 32u64)
}

pub fn check_bool(v: u8) -> (r: bool)
    ensures
        r == bool_ok(v),
{
    v <= 1
}

pub fn check_f32(bits: u32) -> (r: bool)
    ensures
        r == f32_ok(bits),
{
    !(bits & 0x7F80_0000 == 0x7F80_0000 && bits & 0x0040_0000 == 0 && bits & 0x003F_FFFF != 0)
}

pub fn check_f64(bits: u64) -> (r: bool)
    ensures
        r == f64_ok(bits),
{
    !(bits & 0x7FF0_0000_0000_0000 == 0x7FF0_0000_0000_0000 && bits & 0x0008_0000_0000_0000
        == 0 && bits & 0x0007_FFFF_FFFF_FFFF != 0)
}

pub fn check_char(v: u32) -> (r: bool)
    ensures
        r == char_ok(v),
{
    v <= 0x10FFFF && !(0xD800 <= v && v <= 0xDFFF)
}

pub fn check_cstr(s: &[u8]) -> (r: bool)
    ensures
        r == cstr_ok(s@),
{
    let n = s.len();
    if n == 0 || s[n - 1] != 0 {
        return false;
    }
    let mut i: usize = 0;
    while i < n - 1
        invariant
            n == s@.len(),
            n > 0,
            i <= n - 1,
            forall|k: int| 0 <= k < i ==> s@[k] != 0,
        decreases n - 1 - i,
    {
        if s[i] == 0 {
            return false;
        }
        i = i + 1;
    }
    true
}

/// Whether a byte-tagged enumeration's tag is one of its discriminants.
pub fn check_tag(tags: &Vec<u8>, v: u8) -> (r: bool)
    ensures
        r == tags@.contains(v),
{
    let mut i: usize = 0;
    while i < tags.len()
        invariant
            i <= tags@.len(),
            forall|k: int| 0 <= k < i ==> tags@[k] != v,
        decreases tags@.len() - i,
    {
        if tags[i] == v {
            return true;
        }
        i = i + 1;
    }
    false
}

/// Relies on `core::str::from_utf8`: it succeeds exactly on well-formed UTF-8.
#[verifier::external_body]
pub(crate) fn utf8_ok(b: &[u8]) -> (r: bool)
    ensures
        r == valid_utf8(b@),
{
    core::str::from_utf8(b).is_ok()
}

} // verus!
