use vstd::prelude::*;
use crate::error::Error;
use crate::shape::{Shape, size, wf};
use crate::validate::{decode, decode_outcome};

verus! {

/// A type whose stored form is described by a `Shape`, so that a buffer can
/// be certified as holding one of its values.
pub trait Exhume {
    spec fn layout() -> Shape;

    fn shape() -> (r: Shape)
        ensures
            r == Self::layout(),
    ;
}

/// Decodes `input` as one value of the type `T` placed at its start.
pub fn decode_as<'a, T: Exhume>(input: &'a [u8]) -> (r: Result<&'a [u8], Error>)
    requires
        wf(T::layout()),
    ensures
        match decode_outcome(T::layout(), input@) {
            Ok(()) => r matches Ok(v) && v@ == input@.subrange(0, size(T::layout())),
            Err(e) => r == Err::<&[u8], Error>(e),
        },
{
    let s = T::shape();
    decode(input, &s)
}

impl Exhume for () {
    open spec fn layout() -> Shape {
        Shape::Unit
    }

    fn shape() -> (r: Shape) {
        Shape::Unit
    }
}

impl<T> Exhume for core::marker::PhantomData<T> {
    open spec fn layout() -> Shape {
        Shape::Unit
    }

    fn shape() -> (r: Shape) {
        Shape::Unit
    }
}

impl Exhume for u8 {
    open spec fn layout() -> Shape {
        Shape::Int { width: 1 }
    }

    fn shape() -> (r: Shape) {
        Shape::Int { width: 1 }
    }
}

impl Exhume for i8 {
    open spec fn layout() -> Shape {
        Shape::Int { width: 1 }
    }

    fn shape() -> (r: Shape) {
        Shape::Int { width: 1 }
    }
}

impl Exhume for u16 {
    open spec fn layout() -> Shape {
        Shape::Int { width: 2 }
    }

    fn shape() -> (r: Shape) {
        Shape::Int { width: 2 }
    }
}

impl Exhume for i16 {
    open spec fn layout() -> Shape {
        Shape::Int { width: 2 }
    }

    fn shape() -> (r: Shape) {
        Shape::Int { width: 2 }
    }
}

impl Exhume for u32 {
    open spec fn layout() -> Shape {
        Shape::Int { width: 4 }
    }

    fn shape() -> (r: Shape) {
        Shape::Int { width: 4 }
    }
}

impl Exhume for i32 {
    open spec fn layout() -> Shape {
        Shape::Int { width: 4 }
    }

    fn shape() -> (r: Shape) {
        Shape::Int { width: 4 }
    }
}

impl Exhume for u64 {
    open spec fn layout() -> Shape {
        Shape::Int { width: 8 }
    }

    fn shape() -> (r: Shape) {
        Shape::Int { width: 8 }
    }
}

impl Exhume for i64 {
    open spec fn layout() -> Shape {
        Shape::Int { width: 8 }
    }

    fn shape() -> (r: Shape) {
        Shape::Int { width: 8 }
    }
}

impl Exhume for bool {
    open spec fn layout() -> Shape {
        Shape::Bool
    }

    fn shape() -> (r: Shape) {
        Shape::Bool
    }
}

impl Exhume for char {
    open spec fn layout() -> Shape {
        Shape::Char
    }

    fn shape() -> (r: Shape) {
        Shape::Char
    }
}

impl<'a, T: Exhume> Exhume for &'a T {
    open spec fn layout() -> Shape {
        Shape::Ref { target: Box::new(T::layout()) }
    }

    fn shape() -> (r: Shape) {
        Shape::Ref { target: Box::new(T::shape()) }
    }
}

impl<'a, T: Exhume> Exhume for &'a [T] {
    open spec fn layout() -> Shape {
        Shape::Slice { elem: Box::new(T::layout()) }
    }

    fn shape() -> (r: Shape) {
        Shape::Slice { elem: Box::new(T::shape()) }
    }
}

impl<'a> Exhume for &'a str {
    open spec fn layout() -> Shape {
        Shape::Str
    }

    fn shape() -> (r: Shape) {
        Shape::Str
    }
}

impl<T: Exhume> Exhume for core::ops::Range<T> {
    open spec fn layout() -> Shape {
        Shape::Pair { first: Box::new(T::layout()), second: Box::new(T::layout()) }
    }

    fn shape() -> (r: Shape) {
        Shape::Pair { first: Box::new(T::shape()), second: Box::new(T::shape()) }
    }
}

impl<A: Exhume, B: Exhume> Exhume for (A, B) {
    open spec fn layout() -> Shape {
        Shape::Pair { first: Box::new(A::layout()), second: Box::new(B::layout()) }
    }

    fn shape() -> (r: Shape) {
        Shape::Pair { first: Box::new(A::shape()), second: Box::new(B::shape()) }
    }
}

impl<A: Exhume, B: Exhume, C: Exhume> Exhume for (A, B, C) {
    open spec fn layout() -> Shape {
        Shape::Pair {
            first: Box::new(A::layout()),
            second: Box::new(Shape::Pair { first: Box::new(B::layout()), second: Box::new(C::layout()) }),
        }
    }

    fn shape() -> (r: Shape) {
        Shape::Pair {
            first: Box::new(A::shape()),
            second: Box::new(Shape::Pair { first: Box::new(B::shape()), second: Box::new(C::shape()) }),
        }
    }
}

impl<A: Exhume, B: Exhume, C: Exhume, D: Exhume> Exhume for (A, B, C, D) {
    open spec fn layout() -> Shape {
        Shape::Pair {
            first: Box::new(A::layout()),
            second: Box::new(<(B, C, D)>::layout()),
        }
    }

    fn shape() -> (r: Shape) {
        Shape::Pair { first: Box::new(A::shape()), second: Box::new(<(B, C, D)>::shape()) }
    }
}

impl Exhume for usize {
    open spec fn layout() -> Shape {
        Shape::Int { width: (usize::BITS / 8) as u64 }
    }

    fn shape() -> (r: Shape) {
        Shape::Int { width: (usize::BITS / 8) as u64 }
    }
}

impl Exhume for isize {
    open spec fn layout() -> Shape {
        Shape::Int { width: (isize::BITS / 8) as u64 }
    }

    fn shape() -> (r: Shape) {
        Shape::Int { width: (isize::BITS / 8) as u64 }
    }
}

impl<T: Exhume, const N: usize> Exhume for [T; N] {
    open spec fn layout() -> Shape {
        Shape::Array { elem: Box::new(T::layout()), len: N as u64 }
    }

    fn shape() -> (r: Shape) {
        Shape::Array { elem: Box::new(T::shape()), len: N as u64 }
    }
}

} // verus!
