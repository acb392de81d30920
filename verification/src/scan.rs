//! Byte-level scanning primitives shared by the tokenizer and the literal
//! parsers: separator search, splitting, Unicode-whitespace tokenization,
//! UTF-8 validation and unsigned decimal parsing.
use vstd::prelude::*;

verus! {

/// The views of a sequence of byte vectors.
pub open spec fn byte_seqs(v: Seq<Vec<u8>>) -> Seq<Seq<u8>> {
    v.map_values(|x: Vec<u8>| x@)
}

/// Index of the first occurrence of `b` in `s` at or after `i`, if any.
pub open spec fn find_from(s: Seq<u8>, b: u8, i: int) -> Option<int>
    decreases s.len() - i,
{
    if !(0 <= i < s.len()) {
        None
    } else if s[i] == b {
        Some(i)
    } else {
        find_from(s, b, i + 1)
    }
}

/// Splitting `s` on `b`, carried out from position `i` with the piece built
/// so far (`cur`) and the pieces already complete (`acc`).
pub open spec fn split_from(s: Seq<u8>, b: u8, i: int, cur: Seq<u8>, acc: Seq<Seq<u8>>) -> Seq<Seq<u8>>
    decreases s.len() - i,
{
    if !(0 <= i < s.len()) {
        acc.push(cur)
    } else if s[i] == b {
        split_from(s, b, i + 1, Seq::empty(), acc.push(cur))
    } else {
        split_from(s, b, i + 1, cur.push(s[i]), acc)
    }
}

/// The pieces of `s` between occurrences of the separator `b`: always at
/// least one piece, and one more piece per occurrence of `b`.
pub open spec fn split_on(s: Seq<u8>, b: u8) -> Seq<Seq<u8>> {
    split_from(s, b, 0, Seq::empty(), Seq::empty())
}

pub fn find_byte(s: &[u8], b: u8) -> (r: Option<usize>)
    ensures
        match r {
            Some(j) => j < s.len() && find_from(s@, b, 0) == Some(j as int),
            None => find_from(s@, b, 0) == None::<int>,
        },
{
    let mut i: usize = 0;
    while i < s.len()
        invariant
            i <= s.len(),
            find_from(s@, b, 0) == find_from(s@, b, i as int),
        decreases s.len() - i,
    {
        if s[i] == b {
            return Some(i);
        }
        i += 1;
    }
    None
}

pub fn split_bytes(s: &[u8], b: u8) -> (r: Vec<Vec<u8>>)
    ensures
        byte_seqs(r@) == split_on(s@, b),
        r@.len() >= 1,
{
    let mut out: Vec<Vec<u8>> = Vec::new();
    let mut cur: Vec<u8> = Vec::new();
    let mut i: usize = 0;
    proof {
        assert(byte_seqs(out@) =~= Seq::<Seq<u8>>::empty());
    }
    while i < s.len()
        invariant
            i <= s.len(),
            split_from(s@, b, i as int, cur@, byte_seqs(out@)) == split_on(s@, b),
        decreases s.len() - i,
    {
        if s[i] == b {
            let ghost prev_out = out@;
            let ghost prev_cur = cur@;
            out.push(cur);
            cur = Vec::new();
            proof {
                assert(byte_seqs(out@) =~= byte_seqs(prev_out).push(prev_cur));
            }
        } else {
            cur.push(s[i]);
        }
        i += 1;
    }
    let ghost prev_out = out@;
    let ghost prev_cur = cur@;
    out.push(cur);
    proof {
        assert(byte_seqs(out@) =~= byte_seqs(prev_out).push(prev_cur));
        assert(split_from(s@, b, s@.len() as int, prev_cur, byte_seqs(prev_out)) == byte_seqs(prev_out).push(prev_cur));
    }
    out
}

/// Width of the Unicode whitespace character encoded at position `i` of `s`,
/// or 0 when none starts there. The multi-byte patterns are the UTF-8
/// encodings of the non-ASCII members of the White_Space set.
pub open spec fn ws_width(s: Seq<u8>, i: int) -> int {
    if !(0 <= i < s.len()) {
        0
    } else {
        let b = s[i];
        if b == 9 || b == 10 || b == 11 || b == 12 || b == 13 || b == 32 {
            1
        } else if b == 0xC2 && i + 1 < s.len() && (s[i + 1] == 0x85 || s[i + 1] == 0xA0) {
            2
        } else if b == 0xE1 && i + 2 < s.len() && s[i + 1] == 0x9A && s[i + 2] == 0x80 {
            3
        } else if b == 0xE2 && i + 2 < s.len() && s[i + 1] == 0x80
            && (0x80 <= s[i + 2] && s[i + 2] <= 0x8A || s[i + 2] == 0xA8 || s[i + 2] == 0xA9
                || s[i + 2] == 0xAF) {
            3
        } else if b == 0xE2 && i + 2 < s.len() && s[i + 1] == 0x81 && s[i + 2] == 0x9F {
            3
        } else if b == 0xE3 && i + 2 < s.len() && s[i + 1] == 0x80 && s[i + 2] == 0x80 {
            3
        } else {
            0
        }
    }
}

pub fn ws_width_at(s: &[u8], i: usize) -> (w: usize)
    requires
        i < s@.len(),
    ensures
        w == ws_width(s@, i as int),
        i + w <= s@.len(),
{
    let rem = s.len() - i;
    let b = s[i];
    if b == 9 || b == 10 || b == 11 || b == 12 || b == 13 || b == 32 {
        1
    } else if b == 0xC2 && rem > 1 && (s[i + 1] == 0x85 || s[i + 1] == 0xA0) {
        2
    } else if b == 0xE1 && rem > 2 && s[i + 1] == 0x9A && s[i + 2] == 0x80 {
        3
    } else if b == 0xE2 && rem > 2 && s[i + 1] == 0x80
        && (0x80 <= s[i + 2] && s[i + 2] <= 0x8A || s[i + 2] == 0xA8 || s[i + 2] == 0xA9
            || s[i + 2] == 0xAF) {
        3
    } else if b == 0xE2 && rem > 2 && s[i + 1] == 0x81 && s[i + 2] == 0x9F {
        3
    } else if b == 0xE3 && rem > 2 && s[i + 1] == 0x80 && s[i + 2] == 0x80 {
        3
    } else {
        0
    }
}

/// Whitespace tokenization of `s`, carried out from position `i` with the
/// token built so far (`cur`) and the tokens already complete (`acc`).
pub open spec fn toks_from(s: Seq<u8>, i: int, cur: Seq<u8>, acc: Seq<Seq<u8>>) -> Seq<Seq<u8>>
    decreases s.len() - i,
{
    if !(0 <= i < s.len()) {
        if cur.len() > 0 {
            acc.push(cur)
        } else {
            acc
        }
    } else {
        let w = ws_width(s, i);
        if w > 0 {
            toks_from(s, i + w, Seq::empty(), if cur.len() > 0 { acc.push(cur) } else { acc })
        } else {
            toks_from(s, i + 1, cur.push(s[i]), acc)
        }
    }
}

/// The whitespace-separated tokens of `s`, in order.
pub open spec fn tokens_of(s: Seq<u8>) -> Seq<Seq<u8>> {
    toks_from(s, 0, Seq::empty(), Seq::empty())
}

pub fn tokenize(s: &[u8]) -> (r: Vec<Vec<u8>>)
    ensures
        byte_seqs(r@) == tokens_of(s@),
{
    let mut out: Vec<Vec<u8>> = Vec::new();
    let mut cur: Vec<u8> = Vec::new();
    let mut i: usize = 0;
    proof {
        assert(byte_seqs(out@) =~= Seq::<Seq<u8>>::empty());
    }
    while i < s.len()
        invariant
            i <= s.len(),
            toks_from(s@, i as int, cur@, byte_seqs(out@)) == tokens_of(s@),
        decreases s.len() - i,
    {
        let ghost i0 = i as int;
        let ghost cur0 = cur@;
        let ghost acc0 = byte_seqs(out@);
        let w = ws_width_at(s, i);
        if w > 0 {
            proof {
                assert(toks_from(s@, i0, cur0, acc0) == toks_from(
                    s@,
                    i0 + w,
                    Seq::empty(),
                    if cur0.len() > 0 {
                        acc0.push(cur0)
                    } else {
                        acc0
                    },
                ));
            }
            if cur.len() > 0 {
                let ghost prev_out = out@;
                out.push(cur);
                cur = Vec::new();
                proof {
                    assert(byte_seqs(out@) =~= byte_seqs(prev_out).push(cur0));
                }
            } else {
                proof {
                    assert(cur@ =~= Seq::<u8>::empty());
                }
            }
            i += w;
        } else {
            cur.push(s[i]);
            i += 1;
            proof {
                assert(toks_from(s@, i0, cur0, acc0) == toks_from(s@, i0 + 1, cur0.push(s@[i0]), acc0));
                assert(cur@ == cur0.push(s@[i0]));
            }
        }
    }
    if cur.len() > 0 {
        let ghost prev_out = out@;
        let ghost prev_cur = cur@;
        out.push(cur);
        proof {
            assert(byte_seqs(out@) =~= byte_seqs(prev_out).push(prev_cur));
        }
    }
    out
}

/// Index of the first byte of `s` at or after `i` that is not a tab or a
/// space, or the length when every remaining byte is one.
pub open spec fn skip_tabsp(s: Seq<u8>, i: int) -> int
    decreases s.len() - i,
{
    if !(0 <= i < s.len()) {
        s.len() as int
    } else if s[i] == 9 || s[i] == 32 {
        skip_tabsp(s, i + 1)
    } else {
        i
    }
}

/// Index of the first `;` or `#` of `s` at or after `i`, or the length when
/// there is none: where an inline comment begins.
pub open spec fn cut_at(s: Seq<u8>, i: int) -> int
    decreases s.len() - i,
{
    if !(0 <= i < s.len()) {
        s.len() as int
    } else if s[i] == 59 || s[i] == 35 {
        i
    } else {
        cut_at(s, i + 1)
    }
}

pub open spec fn cont_byte(b: u8) -> bool {
    0x80 <= b && b <= 0xBF
}

/// Whether `s` is a valid UTF-8 encoding from position `i` to its end,
/// following the standard well-formed byte patterns of the encoding.
pub open spec fn utf8_from(s: Seq<u8>, i: int) -> bool
    decreases s.len() - i,
{
    if !(0 <= i < s.len()) {
        true
    } else {
        let b = s[i];
        if b < 0x80 {
            utf8_from(s, i + 1)
        } else if 0xC2 <= b && b <= 0xDF {
            i + 1 < s.len() && cont_byte(s[i + 1]) && utf8_from(s, i + 2)
        } else if b == 0xE0 {
            i + 2 < s.len() && 0xA0 <= s[i + 1] && s[i + 1] <= 0xBF && cont_byte(s[i + 2])
                && utf8_from(s, i + 3)
        } else if b == 0xED {
            i + 2 < s.len() && 0x80 <= s[i + 1] && s[i + 1] <= 0x9F && cont_byte(s[i + 2])
                && utf8_from(s, i + 3)
        } else if 0xE1 <= b && b <= 0xEF {
            i + 2 < s.len() && cont_byte(s[i + 1]) && cont_byte(s[i + 2]) && utf8_from(s, i + 3)
        } else if b == 0xF0 {
            i + 3 < s.len() && 0x90 <= s[i + 1] && s[i + 1] <= 0xBF && cont_byte(s[i + 2])
                && cont_byte(s[i + 3]) && utf8_from(s, i + 4)
        } else if b == 0xF4 {
            i + 3 < s.len() && 0x80 <= s[i + 1] && s[i + 1] <= 0x8F && cont_byte(s[i + 2])
                && cont_byte(s[i + 3]) && utf8_from(s, i + 4)
        } else if 0xF1 <= b && b <= 0xF3 {
            i + 3 < s.len() && cont_byte(s[i + 1]) && cont_byte(s[i + 2]) && cont_byte(s[i + 3])
                && utf8_from(s, i + 4)
        } else {
            false
        }
    }
}

pub fn is_utf8(s: &[u8]) -> (r: bool)
    ensures
        r <==> utf8_from(s@, 0),
{
    let mut i: usize = 0;
    while i < s.len()
        invariant
            i <= s.len(),
            utf8_from(s@, 0) <==> utf8_from(s@, i as int),
        decreases s.len() - i,
    {
        let rem = s.len() - i;
        let b = s[i];
        if b < 0x80 {
            i += 1;
        } else if 0xC2 <= b && b <= 0xDF {
            if rem > 1 && 0x80 <= s[i + 1] && s[i + 1] <= 0xBF {
                i += 2;
            } else {
                return false;
            }
        } else if b == 0xE0 {
            if rem > 2 && 0xA0 <= s[i + 1] && s[i + 1] <= 0xBF && 0x80 <= s[i + 2] && s[i + 2] <= 0xBF {
                i += 3;
            } else {
                return false;
            }
        } else if b == 0xED {
            if rem > 2 && 0x80 <= s[i + 1] && s[i + 1] <= 0x9F && 0x80 <= s[i + 2] && s[i + 2] <= 0xBF {
                i += 3;
            } else {
                return false;
            }
        } else if 0xE1 <= b && b <= 0xEF {
            if rem > 2 && 0x80 <= s[i + 1] && s[i + 1] <= 0xBF && 0x80 <= s[i + 2] && s[i + 2] <= 0xBF {
                i += 3;
            } else {
                return false;
            }
        } else if b == 0xF0 {
            if rem > 3 && 0x90 <= s[i + 1] && s[i + 1] <= 0xBF && 0x80 <= s[i + 2] && s[i + 2] <= 0xBF
                && 0x80 <= s[i + 3] && s[i + 3] <= 0xBF {
                i += 4;
            } else {
                return false;
            }
        } else if b == 0xF4 {
            if rem > 3 && 0x80 <= s[i + 1] && s[i + 1] <= 0x8F && 0x80 <= s[i + 2] && s[i + 2] <= 0xBF
                && 0x80 <= s[i + 3] && s[i + 3] <= 0xBF {
                i += 4;
            } else {
                return false;
            }
        } else if 0xF1 <= b && b <= 0xF3 {
            if rem > 3 && 0x80 <= s[i + 1] && s[i + 1] <= 0xBF && 0x80 <= s[i + 2] && s[i + 2] <= 0xBF
                && 0x80 <= s[i + 3] && s[i + 3] <= 0xBF {
                i += 4;
            } else {
                return false;
            }
        } else {
            return false;
        }
    }
    true
}

pub open spec fn is_digit(b: u8) -> bool {
    48 <= b && b <= 57
}

pub open spec fn all_digits(s: Seq<u8>) -> bool {
    forall|k: int| 0 <= k < s.len() ==> is_digit(#[trigger] s[k])
}

/// The value of the decimal digits of `s` from position `i` on, appended to
/// the value `acc` already read.
pub open spec fn dec_val_from(s: Seq<u8>, i: int, acc: int) -> int
    decreases s.len() - i,
{
    if !(0 <= i < s.len()) {
        acc
    } else {
        dec_val_from(s, i + 1, acc * 10 + (s[i] - 48))
    }
}

/// The value that the decimal parser gives a whole token: an optional
/// leading `+`, then one or more digits whose value fits in a `u32`.
#[verifier::opaque]
pub open spec fn spec_parse_u32(s: Seq<u8>) -> Option<u32> {
    let d = if s.len() > 0 && s[0] == 43 {
        s.skip(1)
    } else {
        s
    };
    if d.len() > 0 && all_digits(d) && dec_val_from(d, 0, 0) <= 0xFFFF_FFFF {
        Some(dec_val_from(d, 0, 0) as u32)
    } else {
        None
    }
}

pub fn parse_u32_bytes(s: &[u8]) -> (r: Option<u32>)
    ensures
        r == spec_parse_u32(s@),
{
    proof {
        reveal(spec_parse_u32);
    }
    let start: usize = if s.len() > 0 && s[0] == 43 {
        1
    } else {
        0
    };
    let ghost d = if s@.len() > 0 && s@[0] == 43 {
        s@.skip(1)
    } else {
        s@
    };
    proof {
        assert(d =~= s@.subrange(start as int, s@.len() as int));
    }
    if s.len() == start {
        return None;
    }
    let mut acc: u64 = 0;
    let ghost mut val: int = 0;
    let mut j: usize = start;
    while j < s.len()
        invariant
            start <= j <= s.len(),
            d == s@.subrange(start as int, s@.len() as int),
            forall|k: int| start <= k < j ==> is_digit(#[trigger] s@[k]),
            dec_val_from(d, j - start, val) == dec_val_from(d, 0, 0),
            val >= 0,
            acc == if val >= 0x1_0000_0000 {
                0x1_0000_0000u64
            } else {
                val as u64
            },
        decreases s.len() - j,
    {
        let b = s[j];
        if !(48 <= b && b <= 57) {
            proof {
                assert(d[j - start] == s@[j as int]);
                assert(!all_digits(d));
            }
            return None;
        }
        let dig = (b - 48) as u64;
        if acc >= 0x1_0000_0000 {
            acc = 0x1_0000_0000;
        } else {
            acc = acc * 10 + dig;
            if acc > 0x1_0000_0000 {
                acc = 0x1_0000_0000;
            }
        }
        proof {
            assert(d[j - start] == s@[j as int]);
            val = val * 10 + (b - 48);
        }
        j += 1;
    }
    proof {
        assert forall|m: int| 0 <= m < d.len() implies is_digit(#[trigger] d[m]) by {
            assert(d[m] == s@[m + start]);
        }
        assert(all_digits(d));
        assert(dec_val_from(d, d.len() as int, val) == val);
        assert(val == dec_val_from(d, 0, 0));
    }
    if acc <= 0xFFFF_FFFF {
        Some(acc as u32)
    } else {
        None
    }
}

/// Bytewise equality of two byte strings.
pub fn bytes_eq(a: &[u8], b: &[u8]) -> (r: bool)
    ensures
        r <==> a@ == b@,
{
    if a.len() != b.len() {
        assert(a@ != b@);
        return false;
    }
    let mut i: usize = 0;
    while i < a.len()
        invariant
            i <= a.len(),
            a@.len() == b@.len(),
            forall|k: int| 0 <= k < i ==> a@[k] == b@[k],
        decreases a.len() - i,
    {
        if a[i] != b[i] {
            assert(a@ != b@);
            return false;
        }
        i += 1;
    }
    proof {
        assert(a@ =~= b@);
    }
    true
}

/// A copy of a byte vector, built in place.
pub fn copy_bytes(v: &[u8]) -> (r: Vec<u8>)
    ensures
        r@ == v@,
{
    let mut out: Vec<u8> = Vec::new();
    let mut i: usize = 0;
    while i < v.len()
        invariant
            i <= v.len(),
            out@ =~= v@.subrange(0, i as int),
        decreases v.len() - i,
    {
        out.push(v[i]);
        i += 1;
    }
    proof {
        assert(out@ =~= v@);
    }
    out
}

} // verus!
