use vstd::prelude::*;
use vstd::utf8::valid_utf8;
use crate::error::Error;
use crate::heap::{Heap, reserve_outcome};
use crate::leaf::{
    bool_ok, char_ok, check_bool, check_char, check_cstr, check_f32, check_f64, check_tag,
    cstr_ok, f32_ok, f64_ok, read_u32, read_u64, u32_le, u64_le, utf8_ok,
};
use crate::shape::{
    Shape, align, align_of, direct, indirect, lemma_align_bounds, lemma_pad_bounds, lemma_size_facts, second_offset, size, size_of, wf,
};

verus! {

/// Where an indirect byte run (offset, then count) stored at `at` lands:
/// its address and count, or why its reservation is refused.
pub open spec fn run_outcome(
    b: Seq<u8>,
    base: int,
    end: int,
    at: int,
    hw: int,
    size: int,
    align: int,
) -> Result<(int, int), Error> {
    let off = u64_le(b, at - base);
    let n = u64_le(b, at - base + 8);
    if off == 0 {
        Err(Error::NullIndirection)
    } else {
        match reserve_outcome(base, hw, end, off as int, n as int, size, align) {
            Ok(p) => Ok((p, n as int)),
            Err(e) => Err(e),
        }
    }
}

/// Outcome of certifying a value of shape `s` stored at address `at` of the
/// buffer `b`, which spans `[base, end)`, with high-water mark `hw`: the new
/// high-water mark, or the first failure met.
pub open spec fn check(s: Shape, b: Seq<u8>, base: int, end: int, at: int, hw: int) -> Result<
    int,
    Error,
>
    decreases s, 0int,
{
    let i = at - base;
    match s {
        Shape::Unit | Shape::Int { .. } => Ok(hw),
        Shape::Never => Err(Error::InvalidDiscriminant),
        Shape::Bool => if bool_ok(b[i]) {
            Ok(hw)
        } else {
            Err(Error::InvalidScalarValue)
        },
        Shape::F32 => if f32_ok(u32_le(b, i)) {
            Ok(hw)
        } else {
            Err(Error::InvalidScalarValue)
        },
        Shape::F64 => if f64_ok(u64_le(b, i)) {
            Ok(hw)
        } else {
            Err(Error::InvalidScalarValue)
        },
        Shape::Char => if char_ok(u32_le(b, i)) {
            Ok(hw)
        } else {
            Err(Error::InvalidScalarValue)
        },
        Shape::Enum { tags } => if tags@.contains(b[i]) {
            Ok(hw)
        } else {
            Err(Error::InvalidDiscriminant)
        },
        Shape::Ref { target } => {
            let off = u64_le(b, i);
            if off == 0 {
                Err(Error::NullIndirection)
            } else {
                match reserve_outcome(base, hw, end, off as int, 1, size(*target), align(*target)) {
                    Ok(p) => check(*target, b, base, end, p, p + size(*target)),
                    Err(e) => Err(e),
                }
            }
        },
        Shape::Slice { elem } => match run_outcome(b, base, end, at, hw, size(*elem), align(*elem)) {
            Ok((p, n)) => elems(*elem, b, base, end, p, 0, n, p + n * size(*elem)),
            Err(e) => Err(e),
        },
        Shape::Str => match run_outcome(b, base, end, at, hw, 1, 1) {
            Ok((p, n)) => if valid_utf8(b.subrange(p - base, p - base + n)) {
                Ok(p + n)
            } else {
                Err(Error::InvalidScalarValue)
            },
            Err(e) => Err(e),
        },
        Shape::CStr => match run_outcome(b, base, end, at, hw, 1, 1) {
            Ok((p, n)) => if cstr_ok(b.subrange(p - base, p - base + n)) {
                Ok(p + n)
            } else {
                Err(Error::InvalidScalarValue)
            },
            Err(e) => Err(e),
        },
        Shape::OsStr => match run_outcome(b, base, end, at, hw, 1, 1) {
            Ok((p, n)) => Ok(p + n),
            Err(e) => Err(e),
        },
        Shape::Array { elem, len } => elems(*elem, b, base, end, at, 0, len as int, hw),
        Shape::Pair { first, second } => match check(*first, b, base, end, at, hw) {
            Ok(h) => check(*second, b, base, end, at + second_offset(*first, *second), h),
            Err(e) => Err(e),
        },
    }
}

/// Outcome of certifying elements `i..n` of shape `e`, laid out from `at` at
/// a stride of the element size.
pub open spec fn elems(
    e: Shape,
    b: Seq<u8>,
    base: int,
    end: int,
    at: int,
    i: int,
    n: int,
    hw: int,
) -> Result<int, Error>
    decreases e, n - i + 1,
{
    if i >= n {
        Ok(hw)
    } else {
        match check(e, b, base, end, at + i * size(e), hw) {
            Ok(h) => elems(e, b, base, end, at, i + 1, n, h),
            Err(x) => Err(x),
        }
    }
}

/// Outcome of decoding a whole buffer as a value of shape `s` at its start.
pub open spec fn decode_outcome(s: Shape, b: Seq<u8>) -> Result<(), Error> {
    match reserve_outcome(0, 0, b.len() as int, 0, 1, size(s), align(s)) {
        Ok(p) => match check(s, b, 0, b.len() as int, p, p + size(s)) {
            Ok(_) => Ok(()),
            Err(e) => Err(e),
        },
        Err(e) => Err(e),
    }
}

/// `new` is `old` after further reservations.
pub open spec fn grows(old: Heap, new: Heap) -> bool {
    &&& new.wf()
    &&& new.start == old.start
    &&& new.end == old.end
    &&& old.remaining <= new.remaining
    &&& old.reserved@.len() <= new.reserved@.len()
    &&& forall|k: int| 0 <= k < old.reserved@.len() ==> new.reserved@[k] == old.reserved@[k]
    &&& forall|k: int|
        old.reserved@.len() <= k < new.reserved@.len() ==> old.remaining <= #[trigger] new.reserved@[k].0
}

proof fn lemma_stride(i: int, n: int, sz: int)
    requires
        0 <= i < n,
        0 <= sz,
    ensures
        0 <= i * sz,
        i * sz + sz == (i + 1) * sz,
        (i + 1) * sz <= n * sz,
{
    assert((i + 1) * sz <= n * sz) by (nonlinear_arith)
        requires
            i + 1 <= n,
            0 <= sz,
    ;
    assert(0 <= i * sz) by (nonlinear_arith)
        requires
            0 <= i,
            0 <= sz,
    ;
    assert(i * sz + sz == (i + 1) * sz) by (nonlinear_arith);
}

fn reserve_run(bytes: &[u8], heap: &mut Heap, at: u64, size: u64, align: u64) -> (r: Result<
    (u64, u64),
    Error,
>)
    requires
        old(heap).wf(),
        bytes@.len() == old(heap).end - old(heap).start,
        old(heap).start <= at,
        at + 16 <= old(heap).end,
        align > 0,
    ensures
        grows(*old(heap), *final(heap)),
        match run_outcome(
            bytes@,
            old(heap).start as int,
            old(heap).end as int,
            at as int,
            old(heap).remaining as int,
            size as int,
            align as int,
        ) {
            Ok((p, n)) => {
                &&& r == Ok::<(u64, u64), Error>((p as u64, n as u64))
                &&& final(heap).remaining == p + n * size
                &&& p + n * size <= final(heap).end
                &&& final(heap).start <= p
            },
            Err(e) => r == Err::<(u64, u64), Error>(e),
        },
        u64_le(bytes@, at - old(heap).start) == 0 ==> *final(heap) == *old(heap),
{
    let blen = bytes.len();
    assert(at - heap.start + 16 <= blen);
    let i = (at - heap.start) as usize;
    let off = read_u64(bytes, i);
    let n = read_u64(bytes, i + 8);
    if off == 0 {
        return Err(Error::NullIndirection);
    }
    match heap.reserve(off, n, size, align) {
        Ok(p) => Ok((p, n)),
        Err(e) => Err(e),
    }
}

/// Certifies elements `0..n` of shape `e` laid out from `at`.
fn exhume_elems(e: &Shape, bytes: &[u8], heap: &mut Heap, at: u64, n: u64) -> (r: Result<
    (),
    Error,
>)
    requires
        old(heap).wf(),
        wf(*e),
        bytes@.len() == old(heap).end - old(heap).start,
        old(heap).start <= at,
        at + n * size(*e) <= old(heap).end,
    ensures
        grows(*old(heap), *final(heap)),
        match elems(
            *e,
            bytes@,
            old(heap).start as int,
            old(heap).end as int,
            at as int,
            0,
            n as int,
            old(heap).remaining as int,
        ) {
            Ok(h) => r.is_ok() && final(heap).remaining == h,
            Err(x) => r == Err::<(), Error>(x),
        },
        direct(*e) ==> *final(heap) == *old(heap),
    decreases *e, 1int,
{
    let ghost base = heap.start as int;
    let ghost end = heap.end as int;
    let sz = size_of(e);
    proof {
        lemma_size_facts(*e);
    }
    let mut i: u64 = 0;
    while i < n
        invariant
            grows(*old(heap), *heap),
            direct(*e) ==> *heap == *old(heap),
            heap.start == base,
            heap.end == end,
            wf(*e),
            sz == size(*e),
            sz >= 0,
            i <= n,
            bytes@.len() == end - base,
            base <= at,
            at + n * sz <= end,
            elems(*e, bytes@, base, end, at as int, 0, n as int, old(heap).remaining as int) == elems(
                *e,
                bytes@,
                base,
                end,
                at as int,
                i as int,
                n as int,
                heap.remaining as int,
            ),
        decreases n - i,
    {
        proof {
            lemma_stride(i as int, n as int, sz as int);
        }
        let a = at + i * sz;
        match exhume(e, bytes, heap, a) {
            Ok(()) => {},
            Err(x) => {
                return Err(x);
            },
        }
        i = i + 1;
    }
    Ok(())
}

/// Certifies the value of shape `s` stored at address `at`, reserving and
/// certifying every region it refers to.
#[verifier::rlimit(60)]
pub fn exhume(s: &Shape, bytes: &[u8], heap: &mut Heap, at: u64) -> (r: Result<(), Error>)
    requires
        old(heap).wf(),
        wf(*s),
        bytes@.len() == old(heap).end - old(heap).start,
        old(heap).start <= at,
        at + size(*s) <= old(heap).end,
    ensures
        grows(*old(heap), *final(heap)),
        match check(
            *s,
            bytes@,
            old(heap).start as int,
            old(heap).end as int,
            at as int,
            old(heap).remaining as int,
        ) {
            Ok(h) => r.is_ok() && final(heap).remaining == h,
            Err(x) => r == Err::<(), Error>(x),
        },
        direct(*s) ==> *final(heap) == *old(heap),
        indirect(*s) && u64_le(bytes@, at - old(heap).start) == 0 ==> *final(heap) == *old(heap),
    decreases *s, 0int,
{
    proof {
        lemma_size_facts(*s);
    }
    let blen = bytes.len();
    assert(at - heap.start <= blen);
    let i = (at - heap.start) as usize;
    match s {
        Shape::Unit | Shape::Int { .. } => Ok(()),
        Shape::Never => Err(Error::InvalidDiscriminant),
        Shape::Bool => if check_bool(bytes[i]) {
            Ok(())
        } else {
            Err(Error::InvalidScalarValue)
        },
        Shape::F32 => if check_f32(read_u32(bytes, i)) {
            Ok(())
        } else {
            Err(Error::InvalidScalarValue)
        },
        Shape::F64 => if check_f64(read_u64(bytes, i)) {
            Ok(())
        } else {
            Err(Error::InvalidScalarValue)
        },
        Shape::Char => if check_char(read_u32(bytes, i)) {
            Ok(())
        } else {
            Err(Error::InvalidScalarValue)
        },
        Shape::Enum { tags } => if check_tag(tags, bytes[i]) {
            Ok(())
        } else {
            Err(Error::InvalidDiscriminant)
        },
        Shape::Ref { target } => {
            let off = read_u64(bytes, i);
            if off == 0 {
                return Err(Error::NullIndirection);
            }
            let sz = size_of(target);
            let al = align_of(target);
            proof {
                lemma_align_bounds(**target);
            }
            match heap.reserve(off, 1, sz, al) {
                Ok(p) => exhume(target, bytes, heap, p),
                Err(e) => Err(e),
            }
        },
        Shape::Slice { elem } => {
            let sz = size_of(elem);
            let al = align_of(elem);
            proof {
                lemma_align_bounds(**elem);
            }
            match reserve_run(bytes, heap, at, sz, al) {
                Ok((p, n)) => exhume_elems(elem, bytes, heap, p, n),
                Err(e) => Err(e),
            }
        },
        Shape::Str => match reserve_run(bytes, heap, at, 1, 1) {
            Ok((p, n)) => {
                assert(p - heap.start + n <= blen);
                let lo = (p - heap.start) as usize;
                let hi = (p - heap.start + n) as usize;
                let run = vstd::slice::slice_subrange(bytes, lo, hi);
                if utf8_ok(run) {
                    Ok(())
                } else {
                    Err(Error::InvalidScalarValue)
                }
            },
            Err(e) => Err(e),
        },
        Shape::CStr => match reserve_run(bytes, heap, at, 1, 1) {
            Ok((p, n)) => {
                assert(p - heap.start + n <= blen);
                let lo = (p - heap.start) as usize;
                let hi = (p - heap.start + n) as usize;
                let run = vstd::slice::slice_subrange(bytes, lo, hi);
                if check_cstr(run) {
                    Ok(())
                } else {
                    Err(Error::InvalidScalarValue)
                }
            },
            Err(e) => Err(e),
        },
        Shape::OsStr => match reserve_run(bytes, heap, at, 1, 1) {
            Ok(_) => Ok(()),
            Err(e) => Err(e),
        },
        Shape::Array { elem, len } => exhume_elems(elem, bytes, heap, at, *len),
        Shape::Pair { first, second } => {
            let a = size_of(first);
            let a2 = align_of(second);
            proof {
                lemma_align_bounds(**second);
                lemma_size_facts(**second);
                lemma_pad_bounds(a as int, a2 as int);
            }
            let off = a + (a2 - a % a2) % a2;
            match exhume(first, bytes, heap, at) {
                Ok(()) => exhume(second, bytes, heap, at + off),
                Err(e) => Err(e),
            }
        },
    }
}

/// Decodes `input` as one value of shape `s` placed at its start. On
/// success the result is a read-only view of the value's bytes, borrowed from
/// `input`.
pub fn decode<'a>(input: &'a [u8], s: &Shape) -> (r: Result<&'a [u8], Error>)
    requires
        wf(*s),
    ensures
        match decode_outcome(*s, input@) {
            Ok(()) => r matches Ok(v) && v@ == input@.subrange(0, size(*s)),
            Err(e) => r == Err::<&[u8], Error>(e),
        },
{
    decode_reserving(input, s).0
}

/// `decode`, also handing back the heap of the call. Its log holds every
/// region reserved while decoding, the root's first; being well formed, those
/// regions lie within the buffer, are pairwise disjoint and come in order.
pub fn decode_reserving<'a>(input: &'a [u8], s: &Shape) -> (r: (Result<&'a [u8], Error>, Heap))
    requires
        wf(*s),
    ensures
        r.1.wf(),
        r.1.start == 0,
        r.1.end == input@.len(),
        match decode_outcome(*s, input@) {
            Ok(()) => {
                &&& r.0 matches Ok(v) && v@ == input@.subrange(0, size(*s))
                &&& r.1.reserved@.len() >= 1
                &&& r.1.reserved@[0] == (0int, size(*s))
            },
            Err(e) => r.0 == Err::<&[u8], Error>(e),
        },
{
    let len = input.len() as u64;
    assert(len == input@.len());
    let mut heap = Heap::new(0, len);
    let sz = size_of(s);
    let al = align_of(s);
    proof {
        lemma_align_bounds(*s);
    }
    match heap.reserve(0, 1, sz, al) {
        Ok(p) => match exhume(s, input, &mut heap, p) {
            Ok(()) => (Ok(vstd::slice::slice_subrange(input, 0, sz as usize)), heap),
            Err(e) => (Err(e), heap),
        },
        Err(e) => (Err(e), heap),
    }
}

/// A buffer shorter than the root shape is refused as out of bounds, before
/// any byte is read.
pub proof fn lemma_short_buffer_out_of_bounds(s: Shape, b: Seq<u8>)
    requires
        wf(s),
        b.len() < size(s),
    ensures
        decode_outcome(s, b) == Err::<(), Error>(Error::OutOfBounds),
{
    lemma_align_bounds(s);
    let a = align(s);
    assert(0int % a == 0) by (nonlinear_arith)
        requires
            a > 0,
    ;
}

/// A slice whose element count times element size exceeds the address space
/// is refused as out of bounds, once its offset is non-null, in order and
/// aligned.
pub proof fn lemma_slice_size_overflow(
    elem: Shape,
    b: Seq<u8>,
    base: int,
    end: int,
    at: int,
    hw: int,
)
    requires
        wf(elem),
        base <= at,
        at - base + 16 <= b.len(),
        u64_le(b, at - base) != 0,
        hw <= base + u64_le(b, at - base) <= u64::MAX,
        (base + u64_le(b, at - base)) % align(elem) == 0,
        u64_le(b, at - base + 8) * size(elem) > u64::MAX,
    ensures
        check(Shape::Slice { elem: Box::new(elem) }, b, base, end, at, hw) == Err::<int, Error>(
            Error::OutOfBounds,
        ),
{
}

} // verus!
