//! The fixed-size buffer that holds the word being typed.

use vstd::prelude::*;
use vstd::utf8::{decode_utf8, pop_first_scalar, valid_utf8};
use zeroize::Zeroize;

verus! {

broadcast use vstd::seq::group_seq_axioms;

/// How many bytes the buffer holds at most.
pub const BUFFER_SIZE: usize = 64;

/// The bytes of the word typed so far, in a fixed array that is wiped with
/// volatile writes whenever the word is abandoned.
pub struct WordBuffer {
    buf: [u8; BUFFER_SIZE],
    pos: usize,
}

impl View for WordBuffer {
    type V = Seq<u8>;

    /// The bytes of the word, oldest first.
    closed spec fn view(&self) -> Seq<u8> {
        self.buf@.take(self.pos as int)
    }
}

/// Sets every byte of the array to zero with writes that the compiler may
/// not elide.
///
/// Trusted: calls `<[u8; N] as zeroize::Zeroize>::zeroize`, which writes the
/// default value of `u8`, zero, to each element with a volatile write; the
/// contract claims that every element is zero afterwards.
#[verifier::external_body]
fn wipe_bytes(bytes: &mut [u8; BUFFER_SIZE])
    ensures
        final(bytes)@ == Seq::new(BUFFER_SIZE as nat, |i: int| 0u8),
{
    bytes.zeroize();
}

/// The string that the bytes encode in UTF-8, if they are valid UTF-8.
///
/// Trusted: calls `std::str::from_utf8`, documented to succeed exactly on
/// valid UTF-8; the contract claims that the result is `Some` exactly when
/// the bytes are valid UTF-8, and that its characters are then those that
/// the bytes decode to.
#[verifier::external_body]
fn utf8_text(bytes: &[u8]) -> (r: Option<&str>)
    ensures
        r is Some <==> valid_utf8(bytes@),
        r matches Some(s) ==> s@ == decode_utf8(bytes@),
{
    std::str::from_utf8(bytes).ok()
}

/// The characters of ASCII bytes, one per byte.
pub open spec fn ascii_text(bytes: Seq<u8>) -> Seq<char> {
    Seq::new(bytes.len(), |i: int| bytes[i] as char)
}

/// Bytes below 128 are valid UTF-8 and decode to one character each, of the
/// same value.
pub proof fn lemma_ascii_utf8(bytes: Seq<u8>)
    requires
        forall|i: int| 0 <= i < bytes.len() ==> #[trigger] bytes[i] < 128,
    ensures
        valid_utf8(bytes),
        decode_utf8(bytes) == ascii_text(bytes),
    decreases bytes.len(),
{
    if bytes.len() > 0 {
        let b: u8 = bytes[0];
        assert(b & 0x7f == b) by (bit_vector)
            requires
                b < 128,
        ;
        assert(pop_first_scalar(bytes) =~= bytes.drop_first());
        lemma_ascii_utf8(bytes.drop_first());
        assert(decode_utf8(bytes) =~= ascii_text(bytes));
    }
}

impl WordBuffer {
    /// The buffer's invariant: the word fits, and every byte past it is zero.
    pub closed spec fn well_formed(&self) -> bool {
        &&& self.pos <= BUFFER_SIZE
        &&& forall|i: int| self.pos <= i < BUFFER_SIZE ==> #[trigger] self.buf@[i] == 0u8
    }

    /// Every byte of storage, the word's and the unused ones.
    pub closed spec fn storage(&self) -> Seq<u8> {
        self.buf@
    }

    /// The storage after a wipe.
    pub open spec fn zeroed() -> Seq<u8> {
        Seq::new(BUFFER_SIZE as nat, |i: int| 0u8)
    }

    /// Nothing but the word is ever kept: the storage holds the word's
    /// bytes followed by zeros, so an empty word means zeroed storage.
    pub proof fn lemma_storage_holds_only_word(&self)
        requires
            self.well_formed(),
        ensures
            self@.len() <= BUFFER_SIZE,
            self.storage() == self@ + Seq::new((BUFFER_SIZE - self@.len()) as nat, |i: int| 0u8),
            self@.len() == 0 ==> self.storage() == Self::zeroed(),
    {
        assert(self.storage() =~= self@ + Seq::new((BUFFER_SIZE - self@.len()) as nat, |i: int| 0u8));
        if self@.len() == 0 {
            assert(self.storage() =~= Self::zeroed());
        }
    }

    /// An empty buffer with all storage zero.
    pub fn new() -> (r: Self)
        ensures
            r.well_formed(),
            r@ == Seq::<u8>::empty(),
            r.storage() == Self::zeroed(),
    {
        let r = WordBuffer { buf: [0u8; BUFFER_SIZE], pos: 0 };
        assert(r.buf@ =~= Self::zeroed());
        assert(r@ =~= Seq::<u8>::empty());
        r
    }

    /// The length of the word in bytes.
    pub fn len(&self) -> (r: usize)
        requires
            self.well_formed(),
        ensures
            r == self@.len(),
    {
        self.pos
    }

    /// Appends a byte to the word; a byte that does not fit wipes the
    /// buffer instead and is dropped.
    pub fn push_byte(&mut self, b: u8)
        requires
            old(self).well_formed(),
        ensures
            final(self).well_formed(),
            old(self)@.len() < BUFFER_SIZE ==> final(self)@ == old(self)@.push(b),
            old(self)@.len() >= BUFFER_SIZE ==> final(self)@ == Seq::<u8>::empty()
                && final(self).storage() == Self::zeroed(),
    {
        if self.pos < BUFFER_SIZE {
            let p: usize = self.pos;
            self.buf[p] = b;
            self.pos = p + 1;
            assert(self@ =~= old(self)@.push(b));
        } else {
            self.clear();
        }
    }

    /// Removes the last byte of the word, if any, and zeroes its storage.
    pub fn pop(&mut self)
        requires
            old(self).well_formed(),
        ensures
            final(self).well_formed(),
            old(self)@.len() > 0 ==> final(self)@ == old(self)@.drop_last(),
            old(self)@.len() == 0 ==> final(self)@ == old(self)@,
    {
        if self.pos > 0 {
            let p: usize = self.pos - 1;
            self.pos = p;
            self.buf[p] = 0;
            assert(self@ =~= old(self)@.drop_last());
        }
    }

    /// Empties the word and wipes all storage.
    pub fn clear(&mut self)
        requires
            old(self).well_formed(),
        ensures
            final(self).well_formed(),
            final(self)@ == Seq::<u8>::empty(),
            final(self).storage() == Self::zeroed(),
    {
        wipe_bytes(&mut self.buf);
        self.pos = 0;
        assert(self@ =~= Seq::<u8>::empty());
    }

    /// The word as a string: none when it is empty or not valid UTF-8.
    pub fn as_str(&self) -> (r: Option<&str>)
        requires
            self.well_formed(),
        ensures
            r is Some <==> self@.len() > 0 && valid_utf8(self@),
            r matches Some(s) ==> s@ == decode_utf8(self@),
    {
        if self.pos == 0 {
            return None;
        }
        let bytes: &[u8] = &self.buf[0..self.pos];
        assert(bytes@ =~= self@);
        utf8_text(bytes)
    }
}

} // verus!
