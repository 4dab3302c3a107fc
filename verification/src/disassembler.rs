//! Machine code back to instructions: a binary cut into pieces, each an
//! instruction or a word that encodes none.
use vstd::prelude::*;
use crate::decoder::{lemma_decode_encode, lemma_encode_decode, spec_decode};
use crate::isa::Ins;
use crate::mem::{as_word_slice, bytes_to_words};

verus! {

/// One piece of a disassembly: its byte address, the words it spans and the
/// instruction they encode, if any.
#[derive(Debug)]
pub struct Disassembled {
    pub addr: u16,
    pub repr: Vec<u16>,
    pub ins: Option<Ins>,
}

impl View for Disassembled {
    type V = (u16, Seq<u16>, Option<Ins>);

    open spec fn view(&self) -> (u16, Seq<u16>, Option<Ins>) {
        (self.addr, self.repr@, self.ins)
    }
}

/// The pieces of a disassembly as plain values.
pub open spec fn views(ds: Seq<Disassembled>) -> Seq<(u16, Seq<u16>, Option<Ins>)> {
    ds.map_values(|d: Disassembled| d@)
}

/// The instruction at word `i` of `ws`, decoded from at most three words.
pub open spec fn ins_at(ws: Seq<u16>, i: int) -> Option<Ins> {
    spec_decode(
        ws.subrange(
            i,
            if i + 3 <= ws.len() {
                i + 3
            } else {
                ws.len() as int
            },
        ),
    )
}

/// The number of words a piece spans: those of its instruction, or the one
/// word that encodes none.
pub open spec fn piece_len(ins: Option<Ins>) -> int {
    match ins {
        Some(x) => 1 + x.spec_num_extra(),
        None => 1,
    }
}

/// The disassembly of `ws` from word `i` on: the piece at `i`, then the
/// disassembly after it.
pub open spec fn dis_from(ws: Seq<u16>, i: int) -> Seq<(u16, Seq<u16>, Option<Ins>)>
    decreases ws.len() + 3 - i,
{
    if i < 0 || i >= ws.len() {
        seq![]
    } else {
        let ins = ins_at(ws, i);
        let n = piece_len(ins);
        seq![((2 * i) as u16, ws.subrange(i, i + n), ins)] + dis_from(ws, i + n)
    }
}

/// The piece at word `i` of `ws`.
fn piece_at(ws: &Vec<u16>, i: usize) -> (d: Disassembled)
    requires
        i < ws@.len() <= 0x8000,
    ensures
        i + piece_len(ins_at(ws@, i as int)) <= ws@.len(),
        d.ins matches Some(x) ==> x.canonical(),
        d@ == (
            (2 * i) as u16,
            ws@.subrange(i as int, i + piece_len(ins_at(ws@, i as int))),
            ins_at(ws@, i as int),
        ),
{
    let hi: usize = if i + 3 <= ws.len() {
        i + 3
    } else {
        ws.len()
    };
    let mut chunk: Vec<u16> = Vec::new();
    let mut j: usize = i;
    while j < hi
        invariant
            i <= j <= hi <= ws@.len(),
            chunk@ == ws@.subrange(i as int, j as int),
        decreases hi - j,
    {
        chunk.push(ws[j]);
        proof {
            assert(chunk@ =~= ws@.subrange(i as int, j + 1));
        }
        j = j + 1;
    }
    let ins = Ins::decode(chunk.as_slice());
    let n: usize = match &ins {
        Some(x) => {
            proof {
                lemma_encode_decode(chunk@);
                assert(x.canonical());
            }
            (x.size() / 2) as usize
        },
        None => 1,
    };
    let mut repr: Vec<u16> = Vec::new();
    let mut k: usize = i;
    let end: usize = i + n;
    while k < end
        invariant
            i <= k <= end <= ws@.len(),
            repr@ == ws@.subrange(i as int, k as int),
        decreases end - k,
    {
        repr.push(ws[k]);
        proof {
            assert(repr@ =~= ws@.subrange(i as int, k + 1));
        }
        k = k + 1;
    }
    Disassembled { addr: (2 * i) as u16, repr, ins }
}

/// Disassembles a binary loaded at address 0: see [`dis_from`].
pub fn disassemble(bin: &[u8]) -> (r: Vec<Disassembled>)
    requires
        bin@.len() % 2 == 0,
        bin@.len() <= 0x10000,
    ensures
        views(r@) == dis_from(bytes_to_words(bin@), 0),
        forall|k: int| 0 <= k < r@.len() ==> ((#[trigger] r@[k]).ins matches Some(i) ==> i.canonical()),
{
    let ws = as_word_slice(bin);
    let ghost w = ws@;
    let mut out: Vec<Disassembled> = Vec::new();
    let mut i: usize = 0;
    proof {
        assert(views(out@) + dis_from(w, 0) =~= dis_from(w, 0));
    }
    while i < ws.len()
        invariant
            ws@ == w,
            w.len() <= 0x8000,
            i <= w.len(),
            views(out@) + dis_from(w, i as int) == dis_from(w, 0),
            forall|k: int| 0 <= k < out@.len() ==> ((#[trigger] out@[k]).ins matches Some(x) ==> x.canonical()),
        decreases w.len() - i,
    {
        let d = piece_at(&ws, i);
        let n: usize = d.repr.len();
        let ghost piece = d@;
        proof {
            assert(dis_from(w, i as int) == seq![piece] + dis_from(w, i + n));
        }
        let ghost before = out@;
        out.push(d);
        proof {
            assert(views(out@) =~= views(before).push(piece));
            assert(views(before) + dis_from(w, i as int) =~= views(out@) + dis_from(w, i + n));
        }
        i = i + n;
    }
    proof {
        assert(views(out@) + dis_from(w, i as int) =~= views(out@));
    }
    out
}

/// Disassembling the binary form of an instruction, as decoding gives
/// instructions, at the start of a binary gives back that instruction as
/// the first piece, spanning exactly its words.
pub proof fn lemma_disassemble_encoded(ins: Ins, rest: Seq<u16>)
    requires
        ins.canonical(),
    ensures
        dis_from(ins.spec_words() + rest, 0) == seq![(0u16, ins.spec_words(), Some(ins))]
            + dis_from(ins.spec_words() + rest, ins.spec_words().len() as int),
{
    let ws = ins.spec_words() + rest;
    let n = ins.spec_words().len();
    assert(n == 1 + ins.spec_num_extra());
    let hi = if 3 <= ws.len() {
        3
    } else {
        ws.len() as int
    };
    let tail = rest.subrange(0, hi - n);
    assert(ws.subrange(0, hi) =~= ins.spec_words() + tail);
    lemma_decode_encode(ins, tail);
    assert(ins_at(ws, 0) == Some(ins));
    assert(ws.subrange(0, n as int) =~= ins.spec_words());
}

/// Whether a piece is a single zero word.
pub open spec fn is_zero_piece(p: (u16, Seq<u16>, Option<Ins>)) -> bool {
    p.1 == seq![0u16]
}

/// For each piece, whether it is a single zero word.
pub open spec fn zero_flags(ds: Seq<Disassembled>) -> Seq<bool> {
    ds.map_values(|d: Disassembled| is_zero_piece(d@))
}

/// The first index of the run of flagged pieces that ends at `i`.
pub open spec fn run_start(zs: Seq<bool>, i: int) -> int
    decreases i,
{
    if i > 0 && zs[i - 1] {
        run_start(zs, i - 1)
    } else {
        i
    }
}

/// One past the last index of the run of flagged pieces that starts at `i`.
pub open spec fn run_end(zs: Seq<bool>, i: int) -> int
    decreases zs.len() - i,
{
    if 0 <= i && i + 1 < zs.len() && zs[i + 1] {
        run_end(zs, i + 1)
    } else {
        i + 1
    }
}

/// The runs of more than eight zero pieces that another piece follows keep
/// their first and last piece: piece `i` is left out if it lies strictly
/// between them.
pub open spec fn elided(zs: Seq<bool>, i: int) -> bool {
    &&& zs[i]
    &&& run_end(zs, i) < zs.len()
    &&& run_end(zs, i) - run_start(zs, i) > 8
    &&& run_start(zs, i) < i < run_end(zs, i) - 1
}

/// The elements of `s[0..n)` that are not left out, in order.
pub open spec fn kept<T>(s: Seq<T>, zs: Seq<bool>, n: int) -> Seq<T>
    decreases n,
{
    if n <= 0 {
        seq![]
    } else if elided(zs, n - 1) {
        kept(s, zs, n - 1)
    } else {
        kept(s, zs, n - 1).push(s[n - 1])
    }
}

/// Shortens long runs of zero words in a disassembly: see [`elided`].
pub fn remove_long_zeros(disassembly: &mut Vec<Disassembled>)
    ensures
        final(disassembly)@ == kept(
            old(disassembly)@,
            zero_flags(old(disassembly)@),
            old(disassembly)@.len() as int,
        ),
{
    let ghost zs = zero_flags(disassembly@);
    let len = disassembly.len();
    let mut flags: Vec<bool> = Vec::new();
    let mut i: usize = 0;
    while i < len
        invariant
            len == disassembly@.len() == zs.len(),
            zs == zero_flags(disassembly@),
            i <= len,
            flags@ == zs.subrange(0, i as int),
        decreases len - i,
    {
        let d = &disassembly[i];
        let z = d.repr.len() == 1 && d.repr[0] == 0;
        proof {
            assert(z == is_zero_piece(d@)) by {
                if d.repr@.len() == 1 && d.repr@[0] == 0 {
                    assert(d.repr@ =~= seq![0u16]);
                }
            }
        }
        flags.push(z);
        proof {
            assert(flags@ =~= zs.subrange(0, i + 1));
        }
        i = i + 1;
    }
    assert(flags@ =~= zs);
    // first index of the run holding each piece
    let mut starts: Vec<usize> = Vec::new();
    let mut i: usize = 0;
    while i < len
        invariant
            len == zs.len(),
            flags@ == zs,
            i <= len,
            starts@.len() == i,
            forall|k: int| 0 <= k < i ==> starts@[k] == run_start(zs, k),
        decreases len - i,
    {
        let s: usize = if i > 0 && flags[i - 1] {
            starts[i - 1]
        } else {
            i
        };
        proof {
            if i > 0 && zs[i - 1] {
                assert(starts@[i - 1] == run_start(zs, i - 1));
                assert(run_start(zs, i as int) == run_start(zs, i - 1));
            } else {
                assert(run_start(zs, i as int) == i);
            }
        }
        starts.push(s);
        i = i + 1;
    }
    // one past the last index of the run holding each piece, from the back
    let mut ends_rev: Vec<usize> = Vec::new();
    let mut i: usize = len;
    while i > 0
        invariant
            len == zs.len(),
            flags@ == zs,
            i <= len,
            ends_rev@.len() == len - i,
            forall|k: int| i <= k < len ==> ends_rev@[len - 1 - k] == run_end(zs, k),
        decreases i,
    {
        let k = i - 1;
        let ghost old_ends = ends_rev@;
        let e: usize = if k + 1 < len && flags[k + 1] {
            ends_rev[len - 1 - (k + 1)]
        } else {
            k + 1
        };
        proof {
            if k + 1 < len && zs[k + 1] {
                assert(old_ends[len - 1 - (k + 1)] == run_end(zs, k + 1));
                assert(run_end(zs, k as int) == run_end(zs, k + 1));
            } else {
                assert(run_end(zs, k as int) == k + 1);
            }
        }
        ends_rev.push(e);
        proof {
            assert(ends_rev@[len - 1 - k] == run_end(zs, k as int));
            assert forall|m: int| k <= m < len implies ends_rev@[len - 1 - m] == run_end(zs, m) by {
                if m > k {
                    assert(ends_rev@[len - 1 - m] == old_ends[len - 1 - m]);
                }
            }
        }
        i = k;
    }
    let mut all: Vec<Disassembled> = Vec::new();
    std::mem::swap(&mut all, disassembly);
    let ghost s = all@;
    let mut idx: usize = 0;
    for d in it: all.into_iter()
        invariant
            it.seq() == s,
            idx == it.index(),
            len == s.len() == zs.len(),
            flags@ == zs,
            starts@.len() == len,
            ends_rev@.len() == len,
            forall|k: int| 0 <= k < len ==> starts@[k] == run_start(zs, k),
            forall|k: int| 0 <= k < len ==> ends_rev@[len - 1 - k] == run_end(zs, k),
            disassembly@ == kept(s, zs, idx as int),
    {
        let st = starts[idx];
        let en = ends_rev[len - 1 - idx];
        let drop = flags[idx] && en < len && st < idx && idx + 1 < en && en - st > 8;
        if !drop {
            disassembly.push(d);
        }
        idx = idx + 1;
    }
}

} // verus!
