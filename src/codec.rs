//! Framing of requests on the byte stream, and of replies back onto it.

use bytes::BytesMut;
use vstd::prelude::*;
use vstd::string::StringSliceAdditionalSpecFns;
use vstd::utf8::{decode_utf8, encode_utf8, valid_utf8};

verus! {

/// The byte that ends a request on the wire.
pub const REQUEST_TERMINATOR: u8 = 0x0d;

/// Capacity that a fresh codec reserves for its buffer.
const INITIAL_CAPACITY: usize = 128;

#[verifier::external_type_specification]
#[verifier::external_body]
pub struct ExBytesMut(BytesMut);

/// The bytes that a `BytesMut` holds, from first to last.
pub uninterp spec fn held_bytes(b: BytesMut) -> Seq<u8>;

/// Relies on bytes::BytesMut::with_capacity: the buffer starts empty.
pub assume_specification[ BytesMut::with_capacity ](capacity: usize) -> (r: BytesMut)
    requires
        capacity <= isize::MAX,
    ensures
        held_bytes(r) == Seq::<u8>::empty(),
;

/// Relies on bytes::BytesMut::extend_from_slice: the slice is appended.
pub assume_specification[ BytesMut::extend_from_slice ](b: &mut BytesMut, extend: &[u8])
    requires
        held_bytes(*old(b)).len() + extend@.len() <= isize::MAX,
    ensures
        held_bytes(*final(b)) == held_bytes(*old(b)) + extend@,
;

/// Relies on bytes::BytesMut::split_to: the first `at` bytes are handed out and
/// the rest stay; it panics when `at` exceeds the length.
pub assume_specification[ BytesMut::split_to ](b: &mut BytesMut, at: usize) -> (r: BytesMut)
    requires
        at <= held_bytes(*old(b)).len(),
    ensures
        held_bytes(r) == held_bytes(*old(b)).take(at as int),
        held_bytes(*final(b)) == held_bytes(*old(b)).skip(at as int),
;

/// Relies on bytes::BytesMut::resize: a shorter length truncates, a longer one
/// pads with `value`.
pub assume_specification[ BytesMut::resize ](b: &mut BytesMut, new_len: usize, value: u8)
    requires
        new_len <= isize::MAX,
    ensures
        new_len <= held_bytes(*old(b)).len() ==> held_bytes(*final(b)) == held_bytes(
            *old(b),
        ).take(new_len as int),
        new_len > held_bytes(*old(b)).len() ==> held_bytes(*final(b)) == held_bytes(*old(b))
            + Seq::new((new_len - held_bytes(*old(b)).len()) as nat, |i: int| value),
;

/// Relies on bytes::BytesMut::clear: nothing is left.
pub assume_specification[ BytesMut::clear ](b: &mut BytesMut)
    ensures
        held_bytes(*final(b)) == Seq::<u8>::empty(),
;

/// Relies on the `AsRef<[u8]>` impl of bytes::BytesMut: the slice of the bytes held.
#[verifier::external_body]
fn held_slice(b: &BytesMut) -> (r: &[u8])
    ensures
        r@ == held_bytes(*b),
{
    b.as_ref()
}

/// Relies on std::str::from_utf8: a string exactly when the bytes are UTF-8.
#[verifier::external_body]
fn utf8_text(v: &[u8]) -> (r: Option<&str>)
    ensures
        r is Some <==> valid_utf8(v@),
        r matches Some(s) ==> s.spec_bytes() == v@,
{
    std::str::from_utf8(v).ok()
}

/// Error of the framing codec.
#[derive(Debug, Clone, Copy, PartialEq, Eq, Structural)]
pub enum CodecError {
    /// A completed frame is not UTF-8.
    InvalidFraming,
}

/// `n` is the position of the first terminator in `s`.
pub open spec fn is_first_terminator(s: Seq<u8>, n: int) -> bool {
    &&& 0 <= n < s.len()
    &&& s[n] == REQUEST_TERMINATOR
    &&& forall|k: int| 0 <= k < n ==> s[k] != REQUEST_TERMINATOR
}

/// `s` holds a terminator.
pub open spec fn has_terminator(s: Seq<u8>) -> bool {
    exists|n: int| 0 <= n < s.len() && s[n] == REQUEST_TERMINATOR
}

/// What a decoding step yields, and what it leaves buffered, when `chunk`
/// arrives while `pending` is buffered: nothing while no terminator has come;
/// else the text before the first one, or `InvalidFraming` if that is not UTF-8,
/// with the buffer emptied either way.
pub open spec fn decode_step(pending: Seq<u8>, chunk: Seq<u8>) -> (
    Result<Option<Seq<char>>, CodecError>,
    Seq<u8>,
) {
    let all = pending + chunk;
    if has_terminator(all) {
        let n = choose|n: int| is_first_terminator(all, n);
        let frame = all.take(n);
        if valid_utf8(frame) {
            (Ok(Some(decode_utf8(frame))), Seq::empty())
        } else {
            (Err(CodecError::InvalidFraming), Seq::empty())
        }
    } else {
        (Ok(None), all)
    }
}

/// The view of a decoding result: the text of a frame as characters.
pub open spec fn decoded_view(r: Result<Option<String>, CodecError>) -> Result<
    Option<Seq<char>>,
    CodecError,
> {
    match r {
        Ok(Some(s)) => Ok(Some(s@)),
        Ok(None) => Ok(None),
        Err(e) => Err(e),
    }
}

/// The bytes that the reply `item` takes on the wire: its UTF-8 encoding, then
/// the record terminator `\r:`.
pub open spec fn encoded_reply(item: Seq<char>) -> Seq<u8> {
    encode_utf8(item) + seq![REQUEST_TERMINATOR, 0x3au8]
}

/// Frames requests out of the bytes received so far.
pub struct Codec {
    buffer: BytesMut,
}

impl Codec {
    /// The bytes received and not yet part of a frame.
    pub closed spec fn pending(&self) -> Seq<u8> {
        held_bytes(self.buffer)
    }

    /// A codec with nothing buffered.
    pub fn new() -> (c: Codec)
        ensures
            c.pending() == Seq::<u8>::empty(),
    {
        Codec { buffer: BytesMut::with_capacity(INITIAL_CAPACITY) }
    }

    /// How many bytes are buffered.
    pub fn buffered_len(&self) -> (n: usize)
        ensures
            n == self.pending().len(),
    {
        held_slice(&self.buffer).len()
    }

    /// Appends `src` to the buffer and hands out the first complete frame, if
    /// any, without its terminator. Once a frame is complete the buffer is
    /// emptied, whether or not the frame is UTF-8.
    pub fn decode(&mut self, src: &[u8]) -> (r: Result<Option<String>, CodecError>)
        requires
            old(self).pending().len() + src@.len() <= isize::MAX,
        ensures
            (decoded_view(r), final(self).pending()) == decode_step(old(self).pending(), src@),
    {
        self.buffer.extend_from_slice(src);
        let ghost all = held_bytes(self.buffer);
        let held = held_slice(&self.buffer);
        let mut i: usize = 0;
        while i < held.len()
            invariant
                held@ == all,
                i <= held@.len(),
                forall|k: int| 0 <= k < i ==> held@[k] != REQUEST_TERMINATOR,
            ensures
                i < held@.len() ==> held@[i as int] == REQUEST_TERMINATOR,
            decreases held@.len() - i,
        {
            if held[i] == REQUEST_TERMINATOR {
                break;
            }
            i = i + 1;
        }
        if i == held.len() {
            return Ok(None);
        }
        assert(is_first_terminator(all, i as int));
        let mut line = self.buffer.split_to(i + 1);
        line.resize(i, 0);
        assert(held_bytes(line) == all.take(i as int));
        let frame = held_slice(&line);
        let r = match utf8_text(frame) {
            Some(s) => {
                proof {
                    vstd::utf8::encode_utf8_decode_utf8(s@);
                }
                Ok(Some(s.to_owned()))
            },
            None => Err(CodecError::InvalidFraming),
        };
        self.buffer.clear();
        r
    }

    /// Appends the reply `item` to `dst` as it goes on the wire: its bytes,
    /// then the record terminator `\r:`. Never fails.
    pub fn encode(&mut self, item: &str, dst: &mut BytesMut) -> (r: Result<(), CodecError>)
        requires
            held_bytes(*old(dst)).len() + item.spec_bytes().len() + 2 <= isize::MAX,
        ensures
            r is Ok,
            held_bytes(*final(dst)) == held_bytes(*old(dst)) + encoded_reply(item@),
    {
        let bytes = item.as_bytes();
        let terminator: [u8; 2] = [REQUEST_TERMINATOR, 0x3a];
        dst.extend_from_slice(bytes);
        dst.extend_from_slice(&terminator);
        Ok(())
    }
}

/// A request cut into two chunks, the first without a terminator, frames as
/// the whole request delivered at once.
pub proof fn lemma_split_delivery(pending: Seq<u8>, first: Seq<u8>, second: Seq<u8>)
    requires
        decode_step(pending, first).0 == Ok::<Option<Seq<char>>, CodecError>(None),
    ensures
        decode_step(decode_step(pending, first).1, second) == decode_step(
            pending,
            first + second,
        ),
{
    assert(pending + first + second == pending + (first + second));
}

} // verus!
