use vstd::prelude::*;
use bytebuffer::ByteBuffer;

verus! {

#[verifier::external_type_specification]
#[verifier::external_body]
pub struct ExByteBuffer(ByteBuffer);

/// The bytes that a `ByteBuffer` holds, first to last.
pub uninterp spec fn buffer_bytes(b: ByteBuffer) -> Seq<u8>;

/// Whether the buffer's write cursor stands at its end with no partial bit
/// byte pending, so that the next `write_bytes` appends.
pub uninterp spec fn buffer_appends(b: ByteBuffer) -> bool;

/// Relies on `ByteBuffer::new`: no bytes, and both cursors at zero.
pub assume_specification[ ByteBuffer::new ]() -> (r: ByteBuffer)
    ensures
        buffer_bytes(r) == Seq::<u8>::empty(),
        buffer_appends(r),
;

/// Relies on `ByteBuffer::write_bytes`: it writes at the write cursor and
/// moves the cursor past what it wrote; with the cursor at the end, that
/// appends. As with `Vec` in vstd, running out of memory is not modelled.
pub assume_specification[ ByteBuffer::write_bytes ](b: &mut ByteBuffer, bytes: &[u8])
    requires
        buffer_appends(*old(b)),
    ensures
        buffer_bytes(*final(b)) == buffer_bytes(*old(b)) + bytes@,
        buffer_appends(*final(b)),
;

/// Relies on `ByteBuffer::as_bytes`: the whole of the data, whatever the
/// cursors.
pub assume_specification[ ByteBuffer::as_bytes ](b: &ByteBuffer) -> (r: &[u8])
    ensures
        r@ == buffer_bytes(*b),
;

/// Relies on `ByteBuffer::clear`: the data is emptied and all cursors reset.
pub assume_specification[ ByteBuffer::clear ](b: &mut ByteBuffer)
    ensures
        buffer_bytes(*final(b)) == Seq::<u8>::empty(),
        buffer_appends(*final(b)),
;

} // verus!
