//! The fixed-capacity vectors the pixel pipeline keeps its pixel FIFOs and
//! its object list in (arrayvec's `ArrayVec`), with what each operation
//! used here does to their contents.
use vstd::prelude::*;

use arrayvec::ArrayVec;

verus! {

#[verifier::external_type_specification]
#[verifier::external_body]
#[verifier::reject_recursive_types(T)]
pub struct ExArrayVec<T, const CAP: usize>(ArrayVec<T, CAP>);

/// An object attribute entry picked by the OAM scan, with its position in OAM.
#[derive(Clone, Copy, Debug, PartialEq, Eq, Structural)]
pub struct Object {
    pub y: u8,
    pub x: u8,
    pub index: u8,
    pub flags: u8,
    pub oam: u8,
}

/// The pixels a FIFO holds, oldest first.
pub uninterp spec fn pixels_of(v: ArrayVec<u8, 8>) -> Seq<u8>;

/// The objects a list holds, in order.
pub uninterp spec fn objects_of(v: ArrayVec<Object, 10>) -> Seq<Object>;

/// Relies on `ArrayVec::new`: a new vector is empty.
#[verifier::external_body]
pub(crate) fn new_pixels() -> (r: ArrayVec<u8, 8>)
    ensures
        pixels_of(r) == Seq::<u8>::empty(),
{
    ArrayVec::new()
}

/// Relies on `ArrayVec::push`: appends at the end; panics only when full.
#[verifier::external_body]
pub(crate) fn push_pixel(v: &mut ArrayVec<u8, 8>, p: u8)
    requires
        pixels_of(*old(v)).len() < 8,
    ensures
        pixels_of(*final(v)) == pixels_of(*old(v)).push(p),
{
    v.push(p)
}

/// Relies on `ArrayVec::pop`: removes and returns the last element, or
/// returns `None` when empty.
#[verifier::external_body]
pub(crate) fn pop_pixel(v: &mut ArrayVec<u8, 8>) -> (r: Option<u8>)
    ensures
        pixels_of(*old(v)).len() == 0 ==> r is None && pixels_of(*final(v)) == pixels_of(*old(v)),
        pixels_of(*old(v)).len() > 0 ==> r == Some(pixels_of(*old(v)).last()) && pixels_of(
            *final(v),
        ) == pixels_of(*old(v)).drop_last(),
{
    v.pop()
}

/// Relies on `ArrayVec::clear`: removes every element.
#[verifier::external_body]
pub(crate) fn clear_pixels(v: &mut ArrayVec<u8, 8>)
    ensures
        pixels_of(*final(v)) == Seq::<u8>::empty(),
{
    v.clear()
}

/// Relies on `ArrayVec::is_empty`: whether the length is zero.
#[verifier::external_body]
pub(crate) fn pixels_empty(v: &ArrayVec<u8, 8>) -> (r: bool)
    ensures
        r == (pixels_of(*v).len() == 0),
{
    v.is_empty()
}

/// Relies on `ArrayVec::new`: a new vector is empty.
#[verifier::external_body]
pub(crate) fn new_objects() -> (r: ArrayVec<Object, 10>)
    ensures
        objects_of(r) == Seq::<Object>::empty(),
{
    ArrayVec::new()
}

/// Relies on `ArrayVec::insert`: shifts the elements from `k` on up by one
/// and puts `o` at `k`; panics only when full or when `k` passes the length.
#[verifier::external_body]
pub(crate) fn insert_object(v: &mut ArrayVec<Object, 10>, k: usize, o: Object)
    requires
        objects_of(*old(v)).len() < 10,
        k <= objects_of(*old(v)).len(),
    ensures
        objects_of(*final(v)) == objects_of(*old(v)).insert(k as int, o),
{
    v.insert(k, o)
}

/// Relies on `ArrayVec::clear`: removes every element.
#[verifier::external_body]
pub(crate) fn clear_objects(v: &mut ArrayVec<Object, 10>)
    ensures
        objects_of(*final(v)) == Seq::<Object>::empty(),
{
    v.clear()
}

/// Relies on `ArrayVec::len`: the number of elements.
#[verifier::external_body]
pub(crate) fn objects_len(v: &ArrayVec<Object, 10>) -> (r: usize)
    ensures
        r == objects_of(*v).len(),
{
    v.len()
}

/// Relies on indexing an `ArrayVec` (through its slice): the element at `k`.
#[verifier::external_body]
pub(crate) fn object_at(v: &ArrayVec<Object, 10>, k: usize) -> (r: Object)
    requires
        k < objects_of(*v).len(),
    ensures
        r == objects_of(*v)[k as int],
{
    v[k]
}

} // verus!
