//! Reading numbers.
use vstd::prelude::*;
use vstd::string::StringSliceAdditionalSpecFns;

verus! {

/// The value of a digit character: `0` to `9`, then the letters in either
/// case from ten on; 36 for any other character, which no base accepts.
pub open spec fn digit_of(c: u8) -> int {
    if 48 <= c <= 57 {
        c - 48
    } else if 97 <= c <= 122 {
        c - 87
    } else if 65 <= c <= 90 {
        c - 55
    } else {
        36
    }
}

/// Whether every character is a digit of base `base`.
pub open spec fn all_digits(d: Seq<u8>, base: int) -> bool {
    forall|k: int| 0 <= k < d.len() ==> digit_of(#[trigger] d[k]) < base
}

/// The value of a run of digits in base `base`, most significant first.
pub open spec fn radix_value(d: Seq<u8>, base: int) -> int
    decreases d.len(),
{
    if d.len() == 0 {
        0
    } else {
        radix_value(d.drop_last(), base) * base + digit_of(d.last())
    }
}

/// The digits of `s` after an optional minus sign and then an optional
/// plus sign.
pub open spec fn digits_part(s: Seq<u8>) -> Seq<u8> {
    let rest = if s.len() > 0 && s[0] == 45 {
        s.drop_first()
    } else {
        s
    };
    if rest.len() > 0 && rest[0] == 43 {
        rest.drop_first()
    } else {
        rest
    }
}

/// The word written by `s` in base `base`: digits, possibly after a minus
/// sign, which negates modulo 2^16, and a plus sign; `None` for no digits,
/// a character that is not a digit of the base, or a value above 65535.
pub open spec fn spec_parse_int(s: Seq<u8>, base: int) -> Option<u16> {
    let neg = s.len() > 0 && s[0] == 45;
    let d = digits_part(s);
    if d.len() == 0 || !all_digits(d, base) || radix_value(d, base) > 65535 {
        None
    } else if neg {
        Some(((65536 - radix_value(d, base)) % 65536) as u16)
    } else {
        Some(radix_value(d, base) as u16)
    }
}

/// The value of one digit character, as [`digit_of`].
fn digit_value(c: u8) -> (r: u32)
    ensures
        r == digit_of(c),
{
    if 48 <= c && c <= 57 {
        (c - 48) as u32
    } else if 97 <= c && c <= 122 {
        (c - 87) as u32
    } else if 65 <= c && c <= 90 {
        (c - 55) as u32
    } else {
        36
    }
}

/// Reads a number in a base from 2 to 36; see [`spec_parse_int`]. The
/// text must be a number that fits in a word: on anything else the call
/// panics.
pub fn parse_int(s: &str, base: u32) -> (r: u16)
    requires
        2 <= base <= 36,
        spec_parse_int(s.spec_bytes(), base as int) is Some,
    ensures
        Some(r) == spec_parse_int(s.spec_bytes(), base as int),
{
    match read_int(s, base) {
        Some(v) => v,
        None => vstd::pervasive::unreached(),
    }
}

/// Reads a number, or gives `None` where [`spec_parse_int`] does.
fn read_int(s: &str, base: u32) -> (r: Option<u16>)
    requires
        2 <= base <= 36,
    ensures
        r == spec_parse_int(s.spec_bytes(), base as int),
{
    let b = s.as_bytes();
    let neg = b.len() > 0 && b[0] == 45;
    let mut start: usize = if neg { 1 } else { 0 };
    if start < b.len() && b[start] == 43 {
        start = start + 1;
    }
    let ghost d = digits_part(b@);
    proof {
        let rest = if neg {
            b@.drop_first()
        } else {
            b@
        };
        assert(rest =~= b@.subrange(if neg { 1int } else { 0int }, b@.len() as int));
        assert(d =~= b@.subrange(start as int, b@.len() as int));
    }
    if start >= b.len() {
        return None;
    }
    let mut v: u32 = 0;
    let mut k = start;
    proof {
        assert(b@.subrange(start as int, start as int) =~= Seq::<u8>::empty());
    }
    while k < b.len()
        invariant
            start <= k <= b@.len(),
            2 <= base <= 36,
            b@ == s.spec_bytes(),
            d == b@.subrange(start as int, b@.len() as int),
            d == digits_part(b@),
            all_digits(b@.subrange(start as int, k as int), base as int),
            v == radix_value(b@.subrange(start as int, k as int), base as int),
            v <= 65535,
        decreases b@.len() - k,
    {
        let c = b[k];
        let dv = digit_value(c);
        if dv >= base {
            proof {
                assert(d[k - start] == c);
                assert(!all_digits(d, base as int));
            }
            return None;
        }
        proof {
            assert(b@.subrange(start as int, k + 1).drop_last() =~= b@.subrange(start as int, k as int));
            assert(b@.subrange(start as int, k + 1).last() == c);
            assert forall|j: int| 0 <= j < k + 1 - start implies digit_of(
                #[trigger] b@.subrange(start as int, k + 1)[j],
            ) < base by {
                if j < k - start {
                    assert(b@.subrange(start as int, k + 1)[j] == b@.subrange(start as int, k as int)[j]);
                }
            }
        }
        assert(v * base <= 65535 * 36) by (nonlinear_arith)
            requires
                v <= 65535,
                base <= 36,
        ;
        v = v * base + dv;
        k = k + 1;
        if v > 65535 {
            proof {
                lemma_prefix_value_bound(b@, start as int, k as int, base as int);
            }
            return None;
        }
    }
    proof {
        assert(b@.subrange(start as int, k as int) =~= d);
    }
    if neg {
        Some(if v == 0 { 0 } else { (65536 - v) as u16 })
    } else {
        Some(v as u16)
    }
}

/// A number whose first digits already exceed a word does too, as far as
/// the rest are digits.
pub proof fn lemma_prefix_value_bound(b: Seq<u8>, start: int, k: int, base: int)
    requires
        0 <= start <= k <= b.len(),
        2 <= base <= 36,
        all_digits(b.subrange(start, k), base),
        radix_value(b.subrange(start, k), base) > 65535,
    ensures
        all_digits(b.subrange(start, b.len() as int), base) ==> radix_value(
            b.subrange(start, b.len() as int),
            base,
        ) > 65535,
    decreases b.len() - k,
{
    if k < b.len() && all_digits(b.subrange(start, b.len() as int), base) {
        let n = b.subrange(start, k + 1);
        assert(n.drop_last() =~= b.subrange(start, k));
        assert(b.subrange(start, b.len() as int)[k - start] == b[k]);
        assert(n.last() == b[k]);
        let a = radix_value(b.subrange(start, k), base);
        assert(a * base >= a) by (nonlinear_arith)
            requires
                a >= 0,
                base >= 1,
        ;
        assert(digit_of(b[k]) >= 0);
        assert forall|j: int| 0 <= j < n.len() implies digit_of(#[trigger] n[j]) < base by {
            assert(n[j] == b.subrange(start, b.len() as int)[j]);
        }
        lemma_prefix_value_bound(b, start, k + 1, base);
    }
}

} // verus!
