//! The fixed work buffer in which one entry is laid out for the cipher.

use vstd::prelude::*;

verus! {

/// `heapless::Vec`: a vector of fixed capacity that needs no allocator.
/// Nothing inside it is visible here; what it holds goes by `buffer_bytes`.
#[verifier::external_type_specification]
#[verifier::external_body]
#[verifier::reject_recursive_types(T)]
pub struct ExHeaplessVec<T, const N: usize>(heapless::Vec<T, N>);

/// The bytes that a work buffer holds, in order.
pub uninterp spec fn buffer_bytes(buffer: heapless::Vec<u8, 96>) -> Seq<u8>;

/// `heapless::Vec::new`: a buffer that holds nothing.
#[verifier::external_body]
pub(crate) fn buffer_new() -> (buffer: heapless::Vec<u8, 96>)
    ensures
        buffer_bytes(buffer) == Seq::<u8>::empty(),
{
    heapless::Vec::new()
}

/// `heapless::Vec::extend_from_slice`: where the bytes of `other` fit in
/// what is left of the 96 places they are appended in order; where they
/// do not, nothing changes and the call fails.
#[verifier::external_body]
pub(crate) fn buffer_extend(buffer: &mut heapless::Vec<u8, 96>, other: &[u8]) -> (r: Result<(), ()>)
    ensures
        buffer_bytes(*old(buffer)).len() + other@.len() <= 96 ==> r is Ok && buffer_bytes(
            *final(buffer),
        ) == buffer_bytes(*old(buffer)) + other@,
        buffer_bytes(*old(buffer)).len() + other@.len() > 96 ==> r is Err && buffer_bytes(
            *final(buffer),
        ) == buffer_bytes(*old(buffer)),
{
    buffer.extend_from_slice(other)
}

/// `heapless::Vec::as_slice`: the bytes that the buffer holds.
#[verifier::external_body]
pub(crate) fn buffer_slice(buffer: &heapless::Vec<u8, 96>) -> (r: &[u8])
    ensures
        r@ == buffer_bytes(*buffer),
{
    buffer.as_slice()
}

} // verus!
