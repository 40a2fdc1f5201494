use vstd::prelude::*;

verus! {

/// Largest size, in bytes, of a described value.
pub const MAX_SIZE: u64 = 0xFFFF_FFFF_FFFF_FFFF;

/// The statically known shape of a value stored in a buffer.
///
/// Layout, all little-endian:
/// - `Unit`, `Never`: zero bytes, alignment 1.
/// - `Int`: `width` bytes (1, 2, 4 or 8), aligned to `width`; every pattern is legal.
/// - `Bool`, `Enum`: one byte. `F32`, `Char`: four bytes. `F64`: eight bytes.
/// - `Ref`: an 8-byte offset of the referenced value from the buffer start.
/// - `Slice`, `Str`, `CStr`, `OsStr`: an 8-byte offset then an 8-byte element count.
/// - `Array`: `len` elements at a stride of the element size.
/// - `Pair`: the first field at 0, the second at the first's size rounded up
///   to the second's alignment, the whole rounded up to the larger alignment.
///   Wider tuples nest pairs; ranges and single-field wrappers are pairs or
///   their inner shape.
pub enum Shape {
    Unit,
    Never,
    Int { width: u64 },
    Bool,
    F32,
    F64,
    Char,
    /// A byte-tagged closed enumeration with the given discriminants.
    Enum { tags: Vec<u8> },
    Ref { target: Box<Shape> },
    Slice { elem: Box<Shape> },
    Str,
    CStr,
    OsStr,
    Array { elem: Box<Shape>, len: u64 },
    Pair { first: Box<Shape>, second: Box<Shape> },
}

impl Shape {
    /// Shape of a three-way comparison result: one byte holding -1, 0 or 1.
    pub fn ordering() -> (r: Shape)
        ensures
            r matches Shape::Enum { tags } && tags@ == seq![0xFFu8, 0u8, 1u8],
    {
        let mut tags: Vec<u8> = Vec::new();
        tags.push(0xFF);
        tags.push(0);
        tags.push(1);
        Shape::Enum { tags }
    }

    /// Shape of a floating-point category: one byte holding 0 to 4 (NaN,
    /// infinite, zero, subnormal, normal).
    pub fn fp_category() -> (r: Shape)
        ensures
            r matches Shape::Enum { tags } && tags@ == seq![0u8, 1u8, 2u8, 3u8, 4u8],
    {
        let mut tags: Vec<u8> = Vec::new();
        let mut k: u8 = 0;
        while k < 5
            invariant
                k <= 5,
                tags@ == Seq::new(k as nat, |i: int| i as u8),
            decreases 5 - k,
        {
            tags.push(k);
            k = k + 1;
        }
        assert(tags@ =~= seq![0u8, 1u8, 2u8, 3u8, 4u8]);
        Shape::Enum { tags }
    }
}

/// Bytes needed after `v` to reach a multiple of `a`.
pub open spec fn pad(v: int, a: int) -> int {
    (a - v % a) % a
}

pub open spec fn align(s: Shape) -> int
    decreases s,
{
    match s {
        Shape::Int { width } => width as int,
        Shape::F32 | Shape::Char => 4,
        Shape::F64 | Shape::Ref { .. } | Shape::Slice { .. } | Shape::Str | Shape::CStr
        | Shape::OsStr => 8,
        Shape::Array { elem, .. } => align(*elem),
        Shape::Pair { first, second } => if align(*first) >= align(*second) {
            align(*first)
        } else {
            align(*second)
        },
        _ => 1,
    }
}

/// Offset of a pair's second field.
pub open spec fn second_offset(first: Shape, second: Shape) -> int {
    size(first) + pad(size(first), align(second))
}

pub open spec fn size(s: Shape) -> int
    decreases s,
{
    match s {
        Shape::Unit | Shape::Never => 0,
        Shape::Int { width } => width as int,
        Shape::Bool | Shape::Enum { .. } => 1,
        Shape::F32 | Shape::Char => 4,
        Shape::F64 | Shape::Ref { .. } => 8,
        Shape::Slice { .. } | Shape::Str | Shape::CStr | Shape::OsStr => 16,
        Shape::Array { elem, len } => len * size(*elem),
        Shape::Pair { first, second } => {
            let e = size(*first) + pad(size(*first), align(*second)) + size(*second);
            e + pad(e, align(Shape::Pair { first, second }))
        },
    }
}

/// A shape whose integer widths are legal and whose every part fits in `MAX_SIZE` bytes.
pub open spec fn wf(s: Shape) -> bool
    decreases s,
{
    &&& size(s) <= MAX_SIZE
    &&& match s {
        Shape::Int { width } => width == 1 || width == 2 || width == 4 || width == 8,
        Shape::Ref { target } => wf(*target),
        Shape::Slice { elem } => wf(*elem),
        Shape::Array { elem, .. } => wf(*elem),
        Shape::Pair { first, second } => wf(*first) && wf(*second),
        _ => true,
    }
}

/// A shape that refers to no other region: validating it reserves nothing.
pub open spec fn direct(s: Shape) -> bool
    decreases s,
{
    match s {
        Shape::Ref { .. } | Shape::Slice { .. } | Shape::Str | Shape::CStr | Shape::OsStr => false,
        Shape::Array { elem, .. } => direct(*elem),
        Shape::Pair { first, second } => direct(*first) && direct(*second),
        _ => true,
    }
}

/// A shape whose stored form begins with an offset to another region.
pub open spec fn indirect(s: Shape) -> bool {
    s is Ref || s is Slice || s is Str || s is CStr || s is OsStr
}

pub proof fn lemma_align_bounds(s: Shape)
    requires
        wf(s),
    ensures
        1 <= align(s) <= 8,
    decreases s,
{
    match s {
        Shape::Array { elem, .. } => lemma_align_bounds(*elem),
        Shape::Pair { first, second } => {
            lemma_align_bounds(*first);
            lemma_align_bounds(*second);
        },
        _ => {},
    }
}

pub proof fn lemma_pad_bounds(v: int, a: int)
    requires
        v >= 0,
        a > 0,
    ensures
        0 <= pad(v, a) < a,
{
    assert(0 <= v % a < a) by (nonlinear_arith)
        requires
            v >= 0,
            a > 0,
    ;
    assert(0 <= (a - v % a) % a < a) by (nonlinear_arith)
        requires
            a > 0,
            a - v % a > 0,
    ;
}

/// Size and offsets of a well-formed shape are non-negative, and a pair's
/// fields lie within it.
pub proof fn lemma_size_facts(s: Shape)
    requires
        wf(s),
    ensures
        size(s) >= 0,
        match s {
            Shape::Pair { first, second } => {
                &&& size(*first) <= second_offset(*first, *second)
                &&& second_offset(*first, *second) + size(*second) <= size(s)
            },
            _ => true,
        },
    decreases s,
{
    lemma_align_bounds(s);
    match s {
        Shape::Array { elem, len } => {
            lemma_size_facts(*elem);
            assert(len * size(*elem) >= 0) by (nonlinear_arith)
                requires
                    len >= 0,
                    size(*elem) >= 0,
            ;
        },
        Shape::Pair { first, second } => {
            lemma_size_facts(*first);
            lemma_size_facts(*second);
            lemma_align_bounds(*second);
            lemma_pad_bounds(size(*first), align(*second));
            let e = second_offset(*first, *second) + size(*second);
            lemma_pad_bounds(e, align(s));
        },
        _ => {},
    }
}

/// Alignment of a shape, in bytes.
pub fn align_of(s: &Shape) -> (r: u64)
    requires
        wf(*s),
    ensures
        r == align(*s),
    decreases s,
{
    proof {
        lemma_align_bounds(*s);
    }
    match s {
        Shape::Int { width } => *width,
        Shape::F32 | Shape::Char => 4,
        Shape::F64 | Shape::Ref { .. } | Shape::Slice { .. } | Shape::Str | Shape::CStr
        | Shape::OsStr => 8,
        Shape::Array { elem, .. } => align_of(elem),
        Shape::Pair { first, second } => {
            let a = align_of(first);
            let b = align_of(second);
            if a >= b {
                a
            } else {
                b
            }
        },
        _ => 1,
    }
}

/// Size of a shape, in bytes.
pub fn size_of(s: &Shape) -> (r: u64)
    requires
        wf(*s),
    ensures
        r == size(*s),
    decreases s,
{
    proof {
        lemma_size_facts(*s);
    }
    match s {
        Shape::Unit | Shape::Never => 0,
        Shape::Int { width } => *width,
        Shape::Bool | Shape::Enum { .. } => 1,
        Shape::F32 | Shape::Char => 4,
        Shape::F64 | Shape::Ref { .. } => 8,
        Shape::Slice { .. } | Shape::Str | Shape::CStr | Shape::OsStr => 16,
        Shape::Array { elem, len } => {
            let n = size_of(elem);
            *len * n
        },
        Shape::Pair { first, second } => {
            let a = size_of(first);
            let b = size_of(second);
            let a2 = align_of(second);
            let m = align_of(s);
            proof {
                lemma_align_bounds(**second);
                lemma_pad_bounds(a as int, a2 as int);
            }
            let off = a + (a2 - a % a2) % a2;
            let e = off + b;
            proof {
                lemma_pad_bounds(e as int, m as int);
            }
            e + (m - e % m) % m
        },
    }
}

} // verus!
