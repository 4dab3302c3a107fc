//! The `a.out` object format: a header of eight words, then the text, data
//! and bss segments.
use vstd::prelude::*;
use crate::mem::{le_word, word_bytes, write_u16};

verus! {

/// An entry of the symbol table; no symbols are written yet.
#[derive(Debug, Clone, Copy, PartialEq, Eq, Structural)]
pub struct Symbol {}

impl Symbol {
    /// Size of an entry in the file.
    pub const BYTES: u16 = 6;
}

/// Why a file is not a supported `a.out`, or an `a.out` cannot be written.
#[derive(Debug, Clone, Copy, PartialEq, Eq, Structural)]
pub enum AoutError {
    /// The header is cut short, or a segment runs past the end.
    Truncated,
    /// The first word is not the magic number.
    BadMagic(u16),
    /// Data, bss or symbols are present; only text is supported.
    Unsupported,
    /// The entry point is odd or not inside the text.
    BadEntryPoint(u16),
    /// Bytes follow the last segment.
    TrailingBytes,
}

/// A program: its segments, symbols and entry point.
#[derive(Debug)]
pub struct Aout {
    pub text: Vec<u8>,
    pub data: Vec<u8>,
    pub bss: Vec<u8>,
    pub symbol_table: Vec<Symbol>,
    pub entry_point: u16,
}

/// The magic number of an `a.out` whose text is not write-protected.
pub const AOUT_MAGIC: u16 = 0o407;

/// The header: magic, the sizes of text, data, bss and symbol table, the
/// entry point, an unused word and the relocation flag (always zero here).
pub open spec fn header(text: nat, data: nat, bss: nat, syms: nat, entry: u16) -> Seq<u8> {
    word_bytes(AOUT_MAGIC) + word_bytes(text as u16) + word_bytes(data as u16) + word_bytes(
        bss as u16,
    ) + word_bytes((syms * 6) as u16) + word_bytes(entry) + word_bytes(0) + word_bytes(0)
}

/// The word at byte `i` of `b`, low byte first.
pub open spec fn word_at(b: Seq<u8>, i: int) -> u16 {
    le_word(b[i], b[i + 1])
}

/// The text and entry point of a file, where it is a supported `a.out`: the
/// magic number, no data, bss or symbols, an even entry point inside the
/// text, and exactly the text after the header.
pub open spec fn spec_read(b: Seq<u8>) -> Result<(Seq<u8>, u16), AoutError> {
    if b.len() < 16 {
        Err(AoutError::Truncated)
    } else if word_at(b, 0) != AOUT_MAGIC {
        Err(AoutError::BadMagic(word_at(b, 0)))
    } else if word_at(b, 4) != 0 || word_at(b, 6) != 0 || word_at(b, 8) != 0 {
        Err(AoutError::Unsupported)
    } else if !(word_at(b, 10) < word_at(b, 2) && word_at(b, 10) % 2 == 0) {
        Err(AoutError::BadEntryPoint(word_at(b, 10)))
    } else if b.len() < 16 + word_at(b, 2) {
        Err(AoutError::Truncated)
    } else if b.len() > 16 + word_at(b, 2) {
        Err(AoutError::TrailingBytes)
    } else {
        Ok((b.subrange(16, b.len() as int), word_at(b, 10)))
    }
}

impl Aout {
    pub const MAGIC: u16 = 0o407;

    /// A program with nothing in it.
    pub fn empty() -> (r: Aout)
        ensures
            r.text@ == Seq::<u8>::empty(),
            r.data@ == Seq::<u8>::empty(),
            r.bss@ == Seq::<u8>::empty(),
            r.symbol_table@ == Seq::<Symbol>::empty(),
            r.entry_point == 0,
    {
        Aout {
            text: Vec::new(),
            data: Vec::new(),
            bss: Vec::new(),
            symbol_table: Vec::new(),
            entry_point: 0,
        }
    }

    /// Reads a program from the bytes of a supported `a.out` file; see
    /// [`spec_read`]. On any other bytes the call panics (see
    /// [`try_read_from`](Self::try_read_from) for the error instead).
    pub fn read_from(b: &[u8]) -> (r: Aout)
        requires
            spec_read(b@) is Ok,
        ensures
            spec_read(b@) == Ok::<(Seq<u8>, u16), AoutError>((r.text@, r.entry_point)),
            r.data@.len() == 0,
            r.bss@.len() == 0,
            r.symbol_table@.len() == 0,
    {
        match Self::try_read_from(b) {
            Ok(a) => a,
            Err(_) => vstd::pervasive::unreached(),
        }
    }

    /// Reads a program from the bytes of a file, or gives why they are no
    /// supported `a.out`; see [`spec_read`].
    pub fn try_read_from(b: &[u8]) -> (r: Result<Aout, AoutError>)
        ensures
            match spec_read(b@) {
                Ok((text, entry)) => r matches Ok(a) && a.text@ == text && a.entry_point == entry
                    && a.data@.len() == 0 && a.bss@.len() == 0 && a.symbol_table@.len() == 0,
                Err(e) => r matches Err(x) && x == e,
            },
    {
        if b.len() < 16 {
            return Err(AoutError::Truncated);
        }
        let magic = crate::mem::read_u16(b, 0);
        if magic != Self::MAGIC {
            return Err(AoutError::BadMagic(magic));
        }
        let text_size = crate::mem::read_u16(b, 2);
        let data_size = crate::mem::read_u16(b, 4);
        let bss_size = crate::mem::read_u16(b, 6);
        let syms_size = crate::mem::read_u16(b, 8);
        if data_size != 0 || bss_size != 0 || syms_size != 0 {
            return Err(AoutError::Unsupported);
        }
        let entry_point = crate::mem::read_u16(b, 10);
        if !(entry_point < text_size && entry_point % 2 == 0) {
            return Err(AoutError::BadEntryPoint(entry_point));
        }
        if b.len() < 16 + text_size as usize {
            return Err(AoutError::Truncated);
        }
        if b.len() > 16 + text_size as usize {
            return Err(AoutError::TrailingBytes);
        }
        let text = crate::assembler::front::copy_span(b, 16, b.len());
        Ok(Aout { text, data: Vec::new(), bss: Vec::new(), symbol_table: Vec::new(), entry_point })
    }

    /// The bytes of the file: the header and the segments. The entry point
    /// must be even and inside the text, each segment must fit its size
    /// word, and the symbol table, which is not written yet, must be empty;
    /// otherwise the call panics.
    pub fn write_to(&self) -> (r: Vec<u8>)
        requires
            self.entry_point % 2 == 0,
            self.entry_point < self.text@.len(),
            self.text@.len() <= 0xffff,
            self.data@.len() <= 0xffff,
            self.bss@.len() <= 0xffff,
            self.symbol_table@.len() == 0,
        ensures
            r@ == header(
                self.text@.len(),
                self.data@.len(),
                self.bss@.len(),
                0,
                self.entry_point,
            ) + self.text@ + self.data@ + self.bss@,
    {
        if !(self.entry_point % 2 == 0 && (self.entry_point as usize) < self.text.len()
            && self.text.len() <= 0xffff && self.data.len() <= 0xffff && self.bss.len() <= 0xffff
            && self.symbol_table.len() == 0) {
            vstd::pervasive::unreached::<()>();
        }
        let mut out: Vec<u8> = Vec::new();
        write_u16(&mut out, Self::MAGIC);
        write_u16(&mut out, self.text.len() as u16);
        write_u16(&mut out, self.data.len() as u16);
        write_u16(&mut out, self.bss.len() as u16);
        write_u16(&mut out, 0);
        write_u16(&mut out, self.entry_point);
        write_u16(&mut out, 0);
        write_u16(&mut out, 0);
        let ghost h = out@;
        proof {
            assert(h =~= header(
                self.text@.len(),
                self.data@.len(),
                self.bss@.len(),
                0,
                self.entry_point,
            ));
        }
        append(&mut out, &self.text);
        append(&mut out, &self.data);
        append(&mut out, &self.bss);
        out
    }
}

/// Appends the bytes of `src` to `out`.
fn append(out: &mut Vec<u8>, src: &Vec<u8>)
    ensures
        final(out)@ == old(out)@ + src@,
{
    let mut k: usize = 0;
    while k < src.len()
        invariant
            k <= src@.len(),
            out@ == old(out)@ + src@.take(k as int),
        decreases src@.len() - k,
    {
        out.push(src[k]);
        k = k + 1;
        assert(out@ =~= old(out)@ + src@.take(k as int));
    }
    assert(src@.take(k as int) =~= src@);
}

/// Reading back a written program gives its text and entry point: for a
/// program of text only, with an even entry point inside the text.
pub proof fn lemma_write_read(text: Seq<u8>, entry: u16)
    requires
        text.len() <= 0xffff,
        entry % 2 == 0,
        entry < text.len(),
    ensures
        spec_read(header(text.len(), 0, 0, 0, entry) + text) == Ok::<(Seq<u8>, u16), AoutError>(
            (text, entry),
        ),
{
    let b = header(text.len(), 0, 0, 0, entry) + text;
    let h = header(text.len(), 0, 0, 0, entry);
    assert(h.len() == 16);
    assert forall|w: u16| #![auto] le_word(word_bytes(w)[0], word_bytes(w)[1]) == w by {}
    assert(word_at(b, 0) == AOUT_MAGIC);
    assert(word_at(b, 2) == text.len());
    assert(word_at(b, 4) == 0);
    assert(word_at(b, 6) == 0);
    assert(word_at(b, 8) == 0);
    assert(word_at(b, 10) == entry);
    assert(b.subrange(16, b.len() as int) =~= text);
}

} // verus!
