//! GPT-2 byte-level BPE byte encoder/decoder tables.
//!
//! These map each byte 0..255 to a printable unicode codepoint so that raw
//! bytes can be represented as regular tokenizer vocabulary tokens.
use std::collections::HashMap;
use vstd::prelude::*;

verus! {

broadcast use vstd::std_specs::hash::group_hash_axioms;

/// Bytes that stand for themselves: the printable ranges `0x21..=0x7E`,
/// `0xA1..=0xAC` and `0xAE..=0xFF`.
pub open spec fn is_printable_byte(b: int) -> bool {
    (0x21 <= b <= 0x7E) || (0xA1 <= b <= 0xAC) || (0xAE <= b <= 0xFF)
}

/// Number of non-printable bytes below `b`.
pub open spec fn nonprintable_below(b: int) -> int
    decreases b,
{
    if b <= 0 {
        0
    } else {
        nonprintable_below(b - 1) + if is_printable_byte(b - 1) {
            0int
        } else {
            1int
        }
    }
}

/// The code point that stands for byte `b`: the byte itself when printable;
/// otherwise the `n`-th non-printable byte (counting from zero) is mapped to
/// `0x100 + n`.
pub open spec fn spec_byte_code(b: int) -> u32 {
    if is_printable_byte(b) {
        b as u32
    } else {
        (0x100 + nonprintable_below(b)) as u32
    }
}

/// The character that stands for byte `b`.
pub open spec fn spec_byte_char(b: int) -> char {
    spec_byte_code(b) as char
}

/// `char::from_u32` of std: the character with the given code point, or
/// `None` for a surrogate or a value above `0x10FFFF`.
#[verifier::external_body]
fn char_from_u32(v: u32) -> (res: Option<char>)
    ensures
        (v <= 0xD7FF || (0xE000 <= v <= 0x10FFFF)) ==> res == Some(v as char),
        !(v <= 0xD7FF || (0xE000 <= v <= 0x10FFFF)) ==> res is None,
{
    char::from_u32(v)
}

/// The count of non-printable bytes below `b`, range by range: every byte
/// below `0x21` is non-printable, as are `0x7F..=0xA0` and `0xAD`.
pub open spec fn nonprintable_below_closed(b: int) -> int {
    if b <= 0x21 {
        b
    } else if b <= 0x7F {
        0x21
    } else if b <= 0xA1 {
        0x21 + (b - 0x7F)
    } else if b <= 0xAD {
        0x43
    } else {
        0x44
    }
}

/// The recursive count agrees with its range-by-range form.
pub proof fn lemma_nonprintable_closed(b: int)
    requires
        0 <= b <= 256,
    ensures
        nonprintable_below(b) == nonprintable_below_closed(b),
    decreases b,
{
    if b > 0 {
        lemma_nonprintable_closed(b - 1);
    }
}

/// The count of non-printable bytes below `b` is at most `b` and at most 68.
pub proof fn lemma_nonprintable_below(b: int)
    requires
        0 <= b <= 256,
    ensures
        0 <= nonprintable_below(b) <= b,
        nonprintable_below(b) <= 68,
        b <= 0x21 ==> nonprintable_below(b) == b,
{
    lemma_nonprintable_closed(b);
}

/// The count of non-printable bytes never decreases, and strictly grows past a
/// non-printable byte.
pub proof fn lemma_nonprintable_monotone(a: int, b: int)
    requires
        0 <= a <= b,
    ensures
        nonprintable_below(a) <= nonprintable_below(b),
        a < b && !is_printable_byte(a) ==> nonprintable_below(a) < nonprintable_below(b),
    decreases b - a,
{
    if a < b {
        lemma_nonprintable_monotone(a, b - 1);
        if !is_printable_byte(a) && a == b - 1 {
        }
    }
}

/// Different bytes stand for different characters.
pub proof fn lemma_byte_char_injective(a: int, b: int)
    requires
        0 <= a < 256,
        0 <= b < 256,
        a != b,
    ensures
        spec_byte_code(a) != spec_byte_code(b),
        spec_byte_char(a) != spec_byte_char(b),
{
    lemma_nonprintable_below(a);
    lemma_nonprintable_below(b);
    if a < b {
        lemma_nonprintable_monotone(a, b);
    } else {
        lemma_nonprintable_monotone(b, a);
    }
    lemma_byte_code_is_char(a);
    lemma_byte_code_is_char(b);
}

/// Every byte's code point is a valid character, below `0x145`.
pub proof fn lemma_byte_code_is_char(b: int)
    requires
        0 <= b < 256,
    ensures
        spec_byte_code(b) < 0x145,
        (spec_byte_char(b) as u32) == spec_byte_code(b),
{
    lemma_nonprintable_below(b);
    lemma_nonprintable_below(b + 1);
    assert(spec_byte_code(b) <= 0xD7FF);
    vstd::utf8::char_u32_cast(spec_byte_char(b), spec_byte_code(b));
}

/// Return the GPT-2 byte encoder table: index by byte value, get a `char`.
pub fn byte_encoder() -> (res: Vec<char>)
    ensures
        res@.len() == 256,
        forall|b: int| 0 <= b < 256 ==> #[trigger] res@[b] == spec_byte_char(b),
{
    let mut out: Vec<char> = Vec::new();
    let mut n: u32 = 0;
    let mut b: u32 = 0;
    while b < 256
        invariant
            b <= 256,
            out@.len() == b,
            n == nonprintable_below(b as int),
            forall|k: int| 0 <= k < b ==> #[trigger] out@[k] == spec_byte_char(k),
        decreases 256 - b,
    {
        proof {
            lemma_nonprintable_below(b as int);
        }
        if (0x21 <= b && b <= 0x7E) || (0xA1 <= b && b <= 0xAC) || (0xAE <= b && b <= 0xFF) {
            let c = (b as u8) as char;
            out.push(c);
        } else {
            let c = match char_from_u32(0x100 + n) {
                Some(c) => c,
                None => ' ',
            };
            out.push(c);
            n = n + 1;
        }
        b = b + 1;
    }
    out
}

/// Return the inverse mapping of `byte_encoder`, keyed by the characters'
/// code points.
pub fn byte_decoder() -> (res: HashMap<u32, u8>)
    ensures
        res@.len() == 256,
        forall|b: int| 0 <= b < 256 ==> #[trigger] res@.contains_key(spec_byte_code(b)) && res@[spec_byte_code(b)] == b,
        forall|k: u32| #[trigger] res@.contains_key(k) ==> exists|b: int| 0 <= b < 256 && spec_byte_code(b) == k,
        forall|k: u32| #[trigger] res@.contains_key(k) ==> spec_byte_code(res@[k] as int) == k,
{
    let encoder = byte_encoder();
    let mut map: HashMap<u32, u8> = HashMap::new();
    let mut i: usize = 0;
    while i < 256
        invariant
            encoder@.len() == 256,
            forall|b: int| 0 <= b < 256 ==> #[trigger] encoder@[b] == spec_byte_char(b),
            i <= 256,
            map@.dom().finite(),
            map@.len() == i,
            forall|b: int| 0 <= b < i ==> #[trigger] map@.contains_key(spec_byte_code(b)) && map@[spec_byte_code(b)] == b,
            forall|k: u32| #[trigger] map@.contains_key(k) ==> exists|b: int| 0 <= b < i && spec_byte_code(b) == k,
        decreases 256 - i,
    {
        proof {
            lemma_byte_code_is_char(i as int);
            assert forall|b: int| 0 <= b < i implies spec_byte_code(b) != spec_byte_code(i as int) by {
                lemma_byte_char_injective(b, i as int);
            }
            assert(!map@.contains_key(spec_byte_code(i as int)));
        }
        let c = encoder[i];
        map.insert(c as u32, i as u8);
        i = i + 1;
    }
    assert forall|k: u32| #[trigger] map@.contains_key(k) implies spec_byte_code(map@[k] as int) == k by {
        let b = choose|b: int| 0 <= b < 256 && spec_byte_code(b) == k;
        assert(map@.contains_key(spec_byte_code(b)));
    }
    map
}

} // verus!
