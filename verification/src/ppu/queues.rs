//! The fixed-capacity queues of the pixel processing unit, from the
//! `array_deque` crate: the object buffer and the pixel FIFO hold their items
//! inline, the copy of OAM on the heap. Their contents are named below, and
//! each operation that the PPU performs states what it does to them.
use vstd::prelude::*;

use array_deque::{ArrayDeque, StackArrayDeque};

use super::{FifoPixel, OamEntry};

verus! {

#[verifier::external_type_specification]
#[verifier::external_body]
#[verifier::reject_recursive_types(T)]
pub struct ExStackArrayDeque<T, const N: usize>(StackArrayDeque<T, N>);

#[verifier::external_type_specification]
#[verifier::external_body]
#[verifier::reject_recursive_types(T)]
pub struct ExArrayDeque<T>(ArrayDeque<T>);

/// The objects in an object buffer, front first.
pub uninterp spec fn buffered_objects(q: StackArrayDeque<OamEntry, 10>) -> Seq<OamEntry>;

/// The pixels in a pixel FIFO, front first.
pub uninterp spec fn queued_pixels(q: StackArrayDeque<FifoPixel, 16>) -> Seq<FifoPixel>;

/// The OAM entries left in a copy of OAM, front first.
pub uninterp spec fn copied_entries(q: ArrayDeque<OamEntry>) -> Seq<OamEntry>;

/// `StackArrayDeque::new`: an empty object buffer.
#[verifier::external_body]
pub(crate) fn new_object_buffer() -> (r: StackArrayDeque<OamEntry, 10>)
    ensures
        buffered_objects(r) == Seq::<OamEntry>::empty(),
{
    StackArrayDeque::new()
}

/// `StackArrayDeque::clear`: the object buffer is left empty.
#[verifier::external_body]
pub(crate) fn clear_objects(q: &mut StackArrayDeque<OamEntry, 10>)
    ensures
        buffered_objects(*final(q)) == Seq::<OamEntry>::empty(),
{
    q.clear()
}

/// `StackArrayDeque::is_full`: whether the object buffer holds ten objects.
#[verifier::external_body]
pub(crate) fn objects_full(q: &StackArrayDeque<OamEntry, 10>) -> (r: bool)
    ensures
        r == (buffered_objects(*q).len() == 10),
{
    q.is_full()
}

/// `StackArrayDeque::push_back`: `value` joins the back of the object
/// buffer; in a full buffer it takes the place of the front object.
#[verifier::external_body]
pub(crate) fn push_object(q: &mut StackArrayDeque<OamEntry, 10>, value: OamEntry)
    ensures
        buffered_objects(*old(q)).len() < 10 ==> buffered_objects(*final(q)) == buffered_objects(
            *old(q),
        ).push(value),
        buffered_objects(*old(q)).len() >= 10 ==> buffered_objects(*final(q)) == buffered_objects(
            *old(q),
        ).drop_first().push(value),
{
    q.push_back(value)
}

/// `StackArrayDeque::new`: an empty pixel FIFO.
#[verifier::external_body]
pub(crate) fn new_pixel_fifo() -> (r: StackArrayDeque<FifoPixel, 16>)
    ensures
        queued_pixels(r) == Seq::<FifoPixel>::empty(),
{
    StackArrayDeque::new()
}

/// `StackArrayDeque::len`: the number of pixels in the FIFO.
#[verifier::external_body]
pub(crate) fn pixel_count(q: &StackArrayDeque<FifoPixel, 16>) -> (r: usize)
    ensures
        r == queued_pixels(*q).len(),
{
    q.len()
}

/// `StackArrayDeque::pop_front`: the front pixel leaves the FIFO, or `None`
/// when it is empty.
#[verifier::external_body]
pub(crate) fn pop_pixel(q: &mut StackArrayDeque<FifoPixel, 16>) -> (r: Option<FifoPixel>)
    ensures
        queued_pixels(*old(q)).len() == 0 ==> r is None && queued_pixels(*final(q))
            == queued_pixels(*old(q)),
        queued_pixels(*old(q)).len() > 0 ==> r == Some(queued_pixels(*old(q))[0])
            && queued_pixels(*final(q)) == queued_pixels(*old(q)).drop_first(),
{
    q.pop_front()
}

/// `StackArrayDeque::push_back`: `value` joins the back of the pixel FIFO;
/// in a full FIFO it takes the place of the front pixel.
#[verifier::external_body]
pub(crate) fn push_pixel(q: &mut StackArrayDeque<FifoPixel, 16>, value: FifoPixel)
    ensures
        queued_pixels(*old(q)).len() < 16 ==> queued_pixels(*final(q)) == queued_pixels(
            *old(q),
        ).push(value),
        queued_pixels(*old(q)).len() >= 16 ==> queued_pixels(*final(q)) == queued_pixels(
            *old(q),
        ).drop_first().push(value),
{
    q.push_back(value)
}

/// `ArrayDeque::from(&[T])`: a deque that holds copies of the entries of
/// `entries`, in order.
#[verifier::external_body]
pub(crate) fn copy_entries(entries: &[OamEntry]) -> (r: ArrayDeque<OamEntry>)
    ensures
        copied_entries(r) == entries@,
{
    ArrayDeque::from(entries)
}

/// `ArrayDeque::pop_front`: the front entry leaves the copy, or `None` when
/// it is empty.
#[verifier::external_body]
pub(crate) fn pop_entry(q: &mut ArrayDeque<OamEntry>) -> (r: Option<OamEntry>)
    ensures
        copied_entries(*old(q)).len() == 0 ==> r is None && copied_entries(*final(q))
            == copied_entries(*old(q)),
        copied_entries(*old(q)).len() > 0 ==> r == Some(copied_entries(*old(q))[0])
            && copied_entries(*final(q)) == copied_entries(*old(q)).drop_first(),
{
    q.pop_front()
}

/// `ArrayDeque::front`: a copy of the front entry, or `None` when the copy
/// is empty; the copy is left as it is.
#[verifier::external_body]
pub(crate) fn front_entry(q: &ArrayDeque<OamEntry>) -> (r: Option<OamEntry>)
    ensures
        copied_entries(*q).len() == 0 ==> r is None,
        copied_entries(*q).len() > 0 ==> r == Some(copied_entries(*q)[0]),
{
    q.front().copied()
}

} // verus!
