//! Little-endian words in byte buffers, and small integer conversions.
use vstd::prelude::*;

verus! {

/// The two bytes of a word, low byte first.
pub open spec fn word_bytes(w: u16) -> Seq<u8> {
    seq![(w % 256) as u8, (w / 256) as u8]
}

/// The word made of a low and a high byte.
pub open spec fn le_word(lo: u8, hi: u8) -> u16 {
    (lo + hi * 256) as u16
}

/// The bytes of a sequence of words, each low byte first.
pub open spec fn words_to_bytes(ws: Seq<u16>) -> Seq<u8>
    decreases ws.len(),
{
    if ws.len() == 0 {
        seq![]
    } else {
        words_to_bytes(ws.drop_last()) + word_bytes(ws.last())
    }
}

/// The words of a byte sequence of even length, each low byte first.
pub open spec fn bytes_to_words(bs: Seq<u8>) -> Seq<u16> {
    Seq::new(bs.len() / 2, |i: int| le_word(bs[2 * i], bs[2 * i + 1]))
}

pub proof fn lemma_words_to_bytes_len(ws: Seq<u16>)
    ensures
        words_to_bytes(ws).len() == 2 * ws.len(),
    decreases ws.len(),
{
    if ws.len() > 0 {
        lemma_words_to_bytes_len(ws.drop_last());
    }
}

pub proof fn lemma_words_to_bytes_push(ws: Seq<u16>, w: u16)
    ensures
        words_to_bytes(ws.push(w)) == words_to_bytes(ws) + word_bytes(w),
{
    assert(ws.push(w).drop_last() == ws);
}

pub proof fn lemma_words_to_bytes_concat(a: Seq<u16>, b: Seq<u16>)
    ensures
        words_to_bytes(a + b) == words_to_bytes(a) + words_to_bytes(b),
    decreases b.len(),
{
    if b.len() == 0 {
        assert(a + b == a);
        assert(words_to_bytes(b) == Seq::<u8>::empty());
    } else {
        lemma_words_to_bytes_concat(a, b.drop_last());
        assert((a + b).drop_last() == a + b.drop_last());
        assert(words_to_bytes(a) + words_to_bytes(b.drop_last()) + word_bytes(b.last())
            == words_to_bytes(a) + (words_to_bytes(b.drop_last()) + word_bytes(b.last())));
    }
}

/// Byte `k` of `words_to_bytes(ws)` is the low or high byte of word `k / 2`.
pub proof fn lemma_words_to_bytes_index(ws: Seq<u16>, k: int)
    requires
        0 <= k < 2 * ws.len(),
    ensures
        words_to_bytes(ws)[k] == word_bytes(ws[k / 2])[k % 2],
    decreases ws.len(),
{
    lemma_words_to_bytes_len(ws.drop_last());
    if k < 2 * (ws.len() - 1) {
        lemma_words_to_bytes_index(ws.drop_last(), k);
    }
}

/// Reading the words of written words gives them back.
pub proof fn lemma_bytes_words_roundtrip(ws: Seq<u16>)
    ensures
        bytes_to_words(words_to_bytes(ws)) == ws,
{
    lemma_words_to_bytes_len(ws);
    let bs = words_to_bytes(ws);
    assert forall|i: int| 0 <= i < ws.len() implies #[trigger] bytes_to_words(bs)[i] == ws[i] by {
        lemma_words_to_bytes_index(ws, 2 * i);
        lemma_words_to_bytes_index(ws, 2 * i + 1);
        assert((2 * i) / 2 == i);
        assert((2 * i + 1) / 2 == i);
        assert((2 * i) % 2 == 0);
        assert((2 * i + 1) % 2 == 1);
    }
    assert(bytes_to_words(bs) =~= ws);
}

/// Appends `val` to `out`, low byte first.
pub fn write_u16(out: &mut Vec<u8>, val: u16)
    ensures
        final(out)@ == old(out)@ + word_bytes(val),
{
    let lower = (val % 256) as u8;
    let upper = (val / 256) as u8;
    out.push(lower);
    out.push(upper);
    assert(final(out)@ =~= old(out)@ + word_bytes(val));
}

/// The word stored low byte first at `bytes[pos]`.
pub fn read_u16(bytes: &[u8], pos: usize) -> (r: u16)
    requires
        pos + 1 < bytes@.len(),
    ensures
        r == le_word(bytes@[pos as int], bytes@[pos + 1]),
{
    let lower = bytes[pos] as u16;
    let upper = bytes[pos + 1] as u16;
    lower + upper * 256
}

/// The words of a byte buffer of even length, each low byte first.
pub fn as_word_slice(input: &[u8]) -> (r: Vec<u16>)
    requires
        input@.len() % 2 == 0,
    ensures
        r@ == bytes_to_words(input@),
{
    let mut out: Vec<u16> = Vec::new();
    let n = input.len() / 2;
    let mut i: usize = 0;
    while i < n
        invariant
            n == input@.len() / 2,
            input@.len() == input.len(),
            i <= n,
            out@ == bytes_to_words(input@).subrange(0, i as int),
        decreases n - i,
    {
        let w = read_u16(input, 2 * i);
        out.push(w);
        i = i + 1;
        assert(out@ =~= bytes_to_words(input@).subrange(0, i as int));
    }
    assert(bytes_to_words(input@).subrange(0, n as int) =~= bytes_to_words(input@));
    out
}

/// The bytes of a sequence of words, each low byte first.
pub fn as_byte_slice(input: &[u16]) -> (r: Vec<u8>)
    ensures
        r@ == words_to_bytes(input@),
{
    let mut out: Vec<u8> = Vec::new();
    let mut i: usize = 0;
    while i < input.len()
        invariant
            i <= input@.len(),
            out@ == words_to_bytes(input@.subrange(0, i as int)),
        decreases input@.len() - i,
    {
        write_u16(&mut out, input[i]);
        proof {
            lemma_words_to_bytes_push(input@.subrange(0, i as int), input@[i as int]);
            assert(input@.subrange(0, i as int).push(input@[i as int]) =~= input@.subrange(
                0,
                i + 1,
            ));
        }
        i = i + 1;
    }
    assert(input@.subrange(0, input@.len() as int) =~= input@);
    out
}

/// Reading words, low byte first, from a source of bytes.
pub trait ReadU16 {
    /// The next word, or `None` when fewer than two bytes are left.
    fn read_u16(&mut self) -> Option<u16>;
}

/// Writing words, low byte first, to a sink of bytes.
pub trait WriteU16 {
    fn write_u16(&mut self, val: u16);
}

/// A cursor over a byte buffer.
pub struct ByteReader<'a> {
    pub bytes: &'a [u8],
    pub pos: usize,
}

impl<'a> ByteReader<'a> {
    pub fn new(bytes: &'a [u8]) -> (r: ByteReader<'a>)
        ensures
            r.bytes@ == bytes@,
            r.pos == 0,
    {
        ByteReader { bytes, pos: 0 }
    }

    /// The bytes not yet read.
    pub open spec fn remaining(&self) -> Seq<u8> {
        self.bytes@.subrange(self.pos as int, self.bytes@.len() as int)
    }

    /// Takes the next `n` bytes, or `None` (reading nothing) when fewer are
    /// left.
    pub fn read_bytes(&mut self, n: usize) -> (r: Option<Vec<u8>>)
        requires
            old(self).pos <= old(self).bytes@.len(),
        ensures
            final(self).bytes == old(self).bytes,
            final(self).pos <= final(self).bytes@.len(),
            n <= old(self).remaining().len() ==> {
                &&& r matches Some(v) && v@ == old(self).remaining().subrange(0, n as int)
                &&& final(self).pos == old(self).pos + n
            },
            n > old(self).remaining().len() ==> r is None && final(self).pos == old(self).pos,
    {
        if n > self.bytes.len() - self.pos {
            return None;
        }
        let mut out: Vec<u8> = Vec::new();
        let mut i: usize = 0;
        while i < n
            invariant
                self.pos + n <= self.bytes@.len(),
                self.bytes@.len() == self.bytes.len(),
                i <= n,
                out@ == self.bytes@.subrange(self.pos as int, self.pos + i),
            decreases n - i,
        {
            out.push(self.bytes[self.pos + i]);
            i = i + 1;
            assert(out@ =~= self.bytes@.subrange(self.pos as int, self.pos + i));
        }
        self.pos = self.pos + n;
        Some(out)
    }
}

impl<'a> ReadU16 for ByteReader<'a> {
    fn read_u16(&mut self) -> (r: Option<u16>)
        ensures
            final(self).bytes == old(self).bytes,
            old(self).pos + 1 < old(self).bytes@.len() ==> {
                &&& r == Some(le_word(old(self).bytes@[old(self).pos as int], old(self).bytes@[old(self).pos + 1]))
                &&& final(self).pos == old(self).pos + 2
            },
            old(self).pos + 1 >= old(self).bytes@.len() ==> r is None && final(self).pos == old(self).pos,
    {
        if self.pos < self.bytes.len() && self.bytes.len() - self.pos >= 2 {
            let w = read_u16(self.bytes, self.pos);
            self.pos = self.pos + 2;
            Some(w)
        } else {
            None
        }
    }
}

impl WriteU16 for Vec<u8> {
    fn write_u16(&mut self, val: u16)
        ensures
            final(self)@ == old(self)@ + word_bytes(val),
    {
        write_u16(self, val)
    }
}

/// Evenness of a word, as of an address that must be word-aligned.
pub trait IsEven: Copy {
    fn is_even(self) -> bool;
}

impl IsEven for u16 {
    fn is_even(self) -> (r: bool)
        ensures
            r == (self % 2 == 0),
    {
        self % 2 == 0
    }
}

/// Narrowing of a length to a word.
pub trait ToU16: Sized {
    spec fn fits_u16(&self) -> bool;

    spec fn spec_to_u16(&self) -> u16;

    /// The value as a word; it must fit in one.
    fn to_u16(self) -> (r: u16)
        requires
            self.fits_u16(),
        ensures
            r == self.spec_to_u16(),
    ;
}

impl ToU16 for usize {
    open spec fn fits_u16(&self) -> bool {
        *self <= u16::MAX
    }

    open spec fn spec_to_u16(&self) -> u16 {
        *self as u16
    }

    fn to_u16(self) -> (r: u16) {
        self as u16
    }
}

/// Narrowing of a length or a wide word to a word, for values known to fit.
pub trait ToU16P: Sized {
    spec fn fits_u16(&self) -> bool;

    spec fn spec_to_u16(&self) -> u16;

    fn to_u16p(self) -> (r: u16)
        requires
            self.fits_u16(),
        ensures
            r == self.spec_to_u16(),
    ;
}

impl ToU16P for usize {
    open spec fn fits_u16(&self) -> bool {
        *self <= u16::MAX
    }

    open spec fn spec_to_u16(&self) -> u16 {
        *self as u16
    }

    fn to_u16p(self) -> (r: u16) {
        self as u16
    }
}

impl ToU16P for u32 {
    open spec fn fits_u16(&self) -> bool {
        *self <= u16::MAX
    }

    open spec fn spec_to_u16(&self) -> u16 {
        *self as u16
    }

    fn to_u16p(self) -> (r: u16) {
        self as u16
    }
}

} // verus!
