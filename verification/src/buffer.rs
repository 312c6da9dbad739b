//! The output buffer: an append-only run of bytes held in a `bytes::BytesMut`.

use vstd::prelude::*;
use bytes::BufMut;
use bytes::BytesMut;

verus! {

/// `bytes::BytesMut`, carried as an opaque value.
#[verifier::external_type_specification]
#[verifier::external_body]
pub struct ExBytesMut(bytes::BytesMut);

/// The bytes that a `BytesMut` holds, first to last: what `&buf[..]` shows.
pub uninterp spec fn buffer_bytes(buf: BytesMut) -> Seq<u8>;

/// The most bytes one allocation can hold.
pub open spec fn max_buffer_len() -> int {
    isize::MAX as int
}

/// `BytesMut::with_capacity`: the new buffer holds no bytes, whatever room it
/// was given. Capacities that no allocation can have are left out.
pub assume_specification[ BytesMut::with_capacity ](capacity: usize) -> (buf: BytesMut)
    requires
        capacity <= max_buffer_len(),
    ensures
        buffer_bytes(buf) == Seq::<u8>::empty(),
;

/// `BytesMut::len`: the number of bytes held.
pub assume_specification[ BytesMut::len ](buf: &BytesMut) -> (n: usize)
    ensures
        n == buffer_bytes(*buf).len(),
;

/// `BufMut::put` on a `BytesMut` with a byte slice as its source: the slice
/// is appended and what was held stays in front of it. Growth past what one
/// allocation can hold is left out.
#[verifier::external_body]
fn put(buf: &mut BytesMut, src: &[u8])
    requires
        buffer_bytes(*old(buf)).len() + src@.len() <= max_buffer_len(),
    ensures
        buffer_bytes(*final(buf)) == buffer_bytes(*old(buf)) + src@,
{
    buf.put(src);
}

/// `Clone::clone` on a `BytesMut`: a separate buffer with the same bytes.
#[verifier::external_body]
fn copy_of(buf: &BytesMut) -> (copy: BytesMut)
    ensures
        buffer_bytes(copy) == buffer_bytes(*buf),
{
    buf.clone()
}

/// The room that a new output buffer starts with.
pub const INITIAL_CAPACITY: usize = 1024;

/// The text of one response so far. Bytes are only ever added at the end.
pub struct OutputBuffer {
    bytes: BytesMut,
}

impl View for OutputBuffer {
    type V = Seq<u8>;

    closed spec fn view(&self) -> Seq<u8> {
        buffer_bytes(self.bytes)
    }
}

impl OutputBuffer {
    /// An empty buffer.
    pub fn new() -> (b: OutputBuffer)
        ensures
            b@ == Seq::<u8>::empty(),
    {
        OutputBuffer { bytes: BytesMut::with_capacity(INITIAL_CAPACITY) }
    }

    /// The number of bytes held.
    pub fn len(&self) -> (n: usize)
        ensures
            n == self@.len(),
    {
        self.bytes.len()
    }

    /// Whether `extra` more bytes still fit.
    pub fn has_room_for(&self, extra: usize) -> (ok: bool)
        ensures
            ok == (self@.len() + extra <= max_buffer_len()),
    {
        let held: usize = self.bytes.len();
        let most: usize = isize::MAX as usize;
        held <= most && extra <= most - held
    }

    /// Adds the UTF-8 bytes of `text` at the end.
    pub fn append(&mut self, text: &str)
        requires
            old(self)@.len() + vstd::utf8::encode_utf8(text@).len() <= max_buffer_len(),
        ensures
            final(self)@ == old(self)@ + vstd::utf8::encode_utf8(text@),
    {
        put(&mut self.bytes, text.as_bytes());
    }

    /// A copy of what is held now; later appends do not change it.
    pub fn snapshot(&self) -> (copy: BytesMut)
        ensures
            buffer_bytes(copy) == self@,
    {
        copy_of(&self.bytes)
    }
}

} // verus!
