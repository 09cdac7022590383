//! The outside types that polling reads and writes through, and what this crate relies on
//! of them.

use vstd::prelude::*;

verus! {

/// The task context handed to every poll. Nothing inside it is read here; it is only passed on.
#[verifier::external_type_specification]
#[verifier::external_body]
pub struct ExContext<'a>(std::task::Context<'a>);

/// An I/O error, carried through results unchanged.
#[verifier::external_type_specification]
#[verifier::external_body]
pub struct ExIoError(std::io::Error);

/// tokio's buffer that a read fills.
#[verifier::external_type_specification]
#[verifier::external_body]
pub struct ExReadBuf<'a>(tokio::io::ReadBuf<'a>);

/// The bytes of a `ReadBuf` that have been filled so far (`ReadBuf::filled`).
pub uninterp spec fn read_buf_filled(b: tokio::io::ReadBuf) -> Seq<u8>;

/// The total number of bytes a `ReadBuf` can hold (`ReadBuf::capacity`).
pub uninterp spec fn read_buf_capacity(b: tokio::io::ReadBuf) -> nat;

/// `ReadBuf::remaining`: tokio's source computes it as the capacity less the filled length.
#[verifier::external_body]
pub(crate) fn read_buf_remaining(b: &tokio::io::ReadBuf) -> (r: usize)
    ensures
        r + read_buf_filled(*b).len() == read_buf_capacity(*b),
{
    b.remaining()
}

/// `ReadBuf::put_slice` with a one-byte slice: tokio's source appends the byte to the filled
/// part and leaves the capacity as it was; it panics when no room is left, which `requires`
/// rules out.
#[verifier::external_body]
pub(crate) fn read_buf_put_byte(b: &mut tokio::io::ReadBuf, x: u8)
    requires
        read_buf_filled(*old(b)).len() < read_buf_capacity(*old(b)),
    ensures
        read_buf_filled(*final(b)) == read_buf_filled(*old(b)).push(x),
        read_buf_capacity(*final(b)) == read_buf_capacity(*old(b)),
{
    b.put_slice(&[x; 1]);
}

} // verus!
