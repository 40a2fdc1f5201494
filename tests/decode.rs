use exhume::shape::{align_of, size_of};
use exhume::{decode, decode_reserving, Error, Heap, Shape};

fn integer(width: u64) -> Shape {
    Shape::Int { width }
}

fn run(b: &[u8], s: &Shape) -> Result<(), Error> {
    decode(b, s).map(|_| ())
}

fn boxed(s: Shape) -> Box<Shape> {
    Box::new(s)
}

/// An indirect header: 8-byte offset, then 8-byte count, little-endian.
fn header(offset: u64, count: u64) -> Vec<u8> {
    let mut v = offset.to_le_bytes().to_vec();
    v.extend_from_slice(&count.to_le_bytes());
    v
}

#[test]
fn bool_bytes() {
    assert_eq!(run(&[0x00], &Shape::Bool), Ok(()));
    assert_eq!(run(&[0x01], &Shape::Bool), Ok(()));
    assert_eq!(run(&[0x02], &Shape::Bool), Err(Error::InvalidScalarValue));
}

#[test]
fn f32_nan_patterns() {
    let quiet = 0x7FC0_0000u32.to_le_bytes();
    let signaling = 0x7F80_0001u32.to_le_bytes();
    assert_eq!(run(&quiet, &Shape::F32), Ok(()));
    assert_eq!(run(&signaling, &Shape::F32), Err(Error::InvalidScalarValue));
    assert_eq!(run(&0x7F80_0000u32.to_le_bytes(), &Shape::F32), Ok(()));
    assert_eq!(run(&1.5f32.to_bits().to_le_bytes(), &Shape::F32), Ok(()));
    assert_eq!(run(&0x7FC0_0001u32.to_le_bytes(), &Shape::F32), Ok(()));
}

#[test]
fn f64_nan_patterns() {
    let quiet = 0x7FF8_0000_0000_0000u64.to_le_bytes();
    let signaling = 0x7FF0_0000_0000_0001u64.to_le_bytes();
    assert_eq!(run(&quiet, &Shape::F64), Ok(()));
    assert_eq!(run(&signaling, &Shape::F64), Err(Error::InvalidScalarValue));
    assert_eq!(run(&f64::INFINITY.to_bits().to_le_bytes(), &Shape::F64), Ok(()));
}

#[test]
fn char_scalar_values() {
    assert_eq!(run(&0xFFFF_FFFFu32.to_le_bytes(), &Shape::Char), Err(Error::InvalidScalarValue));
    assert_eq!(run(&0x0000_0041u32.to_le_bytes(), &Shape::Char), Ok(()));
    assert_eq!(run(&0xD800u32.to_le_bytes(), &Shape::Char), Err(Error::InvalidScalarValue));
    assert_eq!(run(&0x10FFFFu32.to_le_bytes(), &Shape::Char), Ok(()));
    assert_eq!(run(&0x110000u32.to_le_bytes(), &Shape::Char), Err(Error::InvalidScalarValue));
}

#[test]
fn slice_size_overflow_is_out_of_bounds() {
    let buf = header(16, 1u64 << 62);
    let s = Shape::Slice { elem: boxed(integer(8)) };
    assert_eq!(run(&buf, &s), Err(Error::OutOfBounds));
}

#[test]
fn slice_elements_are_checked() {
    let mut buf = header(16, 3);
    buf.extend_from_slice(&[1, 0, 1]);
    let s = Shape::Slice { elem: boxed(Shape::Bool) };
    assert_eq!(run(&buf, &s), Ok(()));
    buf[18] = 7;
    assert_eq!(run(&buf, &s), Err(Error::InvalidScalarValue));
}

#[test]
fn slice_past_end_is_out_of_bounds() {
    let mut buf = header(16, 4);
    buf.extend_from_slice(&[1, 0, 1]);
    let s = Shape::Slice { elem: boxed(Shape::Bool) };
    assert_eq!(run(&buf, &s), Err(Error::OutOfBounds));
}

#[test]
fn text_with_invalid_utf8_fails() {
    let mut buf = header(16, 2);
    buf.extend_from_slice(&[0xC3, 0x28]);
    assert_eq!(run(&buf, &Shape::Str), Err(Error::InvalidScalarValue));
    assert_eq!(run(&buf, &Shape::OsStr), Ok(()));
    let mut ok = header(16, 3);
    ok.extend_from_slice("hé".as_bytes());
    assert_eq!(run(&ok, &Shape::Str), Ok(()));
}

#[test]
fn nul_terminated_strings() {
    let mut good = header(16, 3);
    good.extend_from_slice(b"ab\0");
    assert_eq!(run(&good, &Shape::CStr), Ok(()));
    let mut interior = header(16, 3);
    interior.extend_from_slice(b"a\0b");
    assert_eq!(run(&interior, &Shape::CStr), Err(Error::InvalidScalarValue));
    let mut unterminated = header(16, 2);
    unterminated.extend_from_slice(b"ab");
    assert_eq!(run(&unterminated, &Shape::CStr), Err(Error::InvalidScalarValue));
}

#[test]
fn short_buffer_is_out_of_bounds() {
    assert_eq!(run(&[0, 0], &integer(4)), Err(Error::OutOfBounds));
    assert_eq!(run(&[], &Shape::Bool), Err(Error::OutOfBounds));
    assert_eq!(run(&[0; 15], &Shape::Str), Err(Error::OutOfBounds));
}

#[test]
fn zero_size_root_on_empty_buffer() {
    assert_eq!(run(&[], &Shape::Unit), Ok(()));
    assert_eq!(run(&[], &Shape::Array { elem: boxed(integer(4)), len: 0 }), Ok(()));
    assert_eq!(run(&[], &Shape::Never), Err(Error::InvalidDiscriminant));
}

#[test]
fn references() {
    let mut buf = 8u64.to_le_bytes().to_vec();
    buf.push(1);
    let s = Shape::Ref { target: boxed(Shape::Bool) };
    assert_eq!(run(&buf, &s), Ok(()));
    assert_eq!(run(&[0; 9], &s), Err(Error::NullIndirection));
    let mut back = 4u64.to_le_bytes().to_vec();
    back.push(1);
    assert_eq!(run(&back, &s), Err(Error::BackwardOrOverlapping));
    let mut skew = 12u64.to_le_bytes().to_vec();
    skew.extend_from_slice(&[0; 12]);
    let wide = Shape::Ref { target: boxed(integer(8)) };
    assert_eq!(run(&skew, &wide), Err(Error::Misaligned));
}

#[test]
fn enumeration_tags() {
    let ordering = Shape::Enum { tags: vec![0xFF, 0, 1] };
    assert_eq!(run(&[0xFF], &ordering), Ok(()));
    assert_eq!(run(&[1], &ordering), Ok(()));
    assert_eq!(run(&[2], &ordering), Err(Error::InvalidDiscriminant));
}

#[test]
fn arrays_and_pairs() {
    let arr = Shape::Array { elem: boxed(Shape::Bool), len: 3 };
    assert_eq!(run(&[1, 0, 1], &arr), Ok(()));
    assert_eq!(run(&[1, 0, 2], &arr), Err(Error::InvalidScalarValue));
    let pair = Shape::Pair { first: boxed(Shape::Bool), second: boxed(Shape::Char) };
    assert_eq!(size_of(&pair), 8);
    assert_eq!(align_of(&pair), 4);
    assert_eq!(run(&[1, 9, 9, 9, 0x41, 0, 0, 0], &pair), Ok(()));
    assert_eq!(run(&[1, 0, 0, 0, 0, 0xD8, 0, 0], &pair), Err(Error::InvalidScalarValue));
    let padded = Shape::Pair { first: boxed(integer(8)), second: boxed(Shape::Bool) };
    assert_eq!(size_of(&padded), 16);
}

#[test]
fn reservations_are_disjoint_and_ordered() {
    let mut heap = Heap::new(0, 32);
    assert_eq!(heap.reserve(0, 2, 4, 4), Ok(0));
    assert_eq!(heap.remaining, 8);
    assert_eq!(heap.reserve(4, 1, 4, 4), Err(Error::BackwardOrOverlapping));
    assert_eq!(heap.remaining, 8);
    assert_eq!(heap.reserve(9, 1, 4, 4), Err(Error::Misaligned));
    assert_eq!(heap.reserve(16, 1, 8, 8), Ok(16));
    assert_eq!(heap.remaining, 24);
    assert_eq!(heap.reserve(24, 2, 8, 8), Err(Error::OutOfBounds));
}

#[test]
fn reserve_address_overflow() {
    let mut heap = Heap::new(u64::MAX - 4, 4);
    assert_eq!(heap.reserve(10, 1, 1, 1), Err(Error::OutOfBounds));
    assert_eq!(heap.reserve(0, u64::MAX, 2, 1), Err(Error::OutOfBounds));
    assert_eq!(heap.reserve(1, 2, 1, 1), Ok(u64::MAX - 3));
}

#[test]
fn view_covers_the_root_value() {
    let buf = [1u8, 9, 9, 9, 0x41, 0, 0, 0, 5, 5];
    let pair = Shape::Pair { first: boxed(Shape::Bool), second: boxed(Shape::Char) };
    assert_eq!(decode(&buf, &pair), Ok(&buf[0..8]));
    let mut text = header(16, 2);
    text.extend_from_slice(b"ok");
    assert_eq!(decode(&text, &Shape::Str).map(|v| v.len()), Ok(16));
}

#[test]
fn enumeration_shapes() {
    assert_eq!(run(&[0xFF], &Shape::ordering()), Ok(()));
    assert_eq!(run(&[2], &Shape::ordering()), Err(Error::InvalidDiscriminant));
    assert_eq!(run(&[4], &Shape::fp_category()), Ok(()));
    assert_eq!(run(&[5], &Shape::fp_category()), Err(Error::InvalidDiscriminant));
}

#[test]
fn heap_of_one_decode() {
    let mut buf = header(16, 3);
    buf.extend_from_slice(&[1, 0, 1]);
    let s = Shape::Slice { elem: boxed(Shape::Bool) };
    let (r, heap) = decode_reserving(&buf, &s);
    assert_eq!(r.map(|v| v.len()), Ok(16));
    assert_eq!((heap.start, heap.remaining, heap.end), (0, 19, 19));
    let (null, heap) = decode_reserving(&[0; 16], &s);
    assert_eq!(null, Err(Error::NullIndirection));
    assert_eq!(heap.remaining, 16);
    let (bad, heap) = decode_reserving(&[2], &Shape::Bool);
    assert_eq!(bad, Err(Error::InvalidScalarValue));
    assert_eq!(heap.remaining, 1);
}

#[test]
fn nested_regions_follow_their_slice() {
    // A slice of two references, each to a bool placed after the slice.
    let mut buf = header(16, 2);
    buf.extend_from_slice(&32u64.to_le_bytes());
    buf.extend_from_slice(&33u64.to_le_bytes());
    buf.extend_from_slice(&[1, 0]);
    let s = Shape::Slice { elem: boxed(Shape::Ref { target: boxed(Shape::Bool) }) };
    assert_eq!(run(&buf, &s), Ok(()));
    // A reference pointing back into the slice's own region is refused.
    let mut back = buf.clone();
    back[16..24].copy_from_slice(&24u64.to_le_bytes());
    assert_eq!(run(&back, &s), Err(Error::BackwardOrOverlapping));
}
