//! Small verified helpers on strings.
use vstd::prelude::*;
use vstd::string::StringSliceAdditionalSpecFns;
use vstd::utf8::{encode_utf8, encode_utf8_decode_utf8};

verus! {

/// Two byte sequences are equal, decided element by element.
pub fn bytes_eq(a: &[u8], b: &[u8]) -> (res: bool)
    ensures
        res == (a@ == b@),
{
    if a.len() != b.len() {
        return false;
    }
    let n = a.len();
    let mut i: usize = 0;
    while i < n
        invariant
            n == a@.len() == b@.len(),
            i <= n,
            forall|j: int| 0 <= j < i ==> a@[j] == b@[j],
        decreases n - i,
    {
        if a[i] != b[i] {
            return false;
        }
        i = i + 1;
    }
    assert(a@ =~= b@);
    true
}

/// Two strings hold the same characters.
pub fn str_eq(a: &str, b: &str) -> (res: bool)
    ensures
        res == (a@ == b@),
{
    let ab = a.as_bytes();
    let bb = b.as_bytes();
    let r = bytes_eq(ab, bb);
    proof {
        if r {
            encode_utf8_decode_utf8(a@);
            encode_utf8_decode_utf8(b@);
        }
    }
    r
}

} // verus!

verus! {

/// `String::push` of std: appends one character.
#[verifier::external_body]
pub(crate) fn push_char(s: &mut String, c: char)
    ensures
        final(s)@ == old(s)@.push(c),
{
    s.push(c)
}

/// The character of a decimal digit.
pub open spec fn digit_char(d: int) -> char {
    (48 + d) as char
}

/// The decimal representation of `n`, most significant digit first, without
/// leading zeros (`"0"` for zero).
pub open spec fn spec_decimal(n: nat) -> Seq<char>
    decreases n,
{
    if n < 10 {
        seq![digit_char(n as int)]
    } else {
        spec_decimal(n / 10).push(digit_char((n % 10) as int))
    }
}

/// The number a string of decimal digits denotes, read most significant
/// digit first.
pub open spec fn decimal_value(s: Seq<char>) -> int
    decreases s.len(),
{
    if s.len() == 0 {
        0
    } else {
        10 * decimal_value(s.drop_last()) + (s.last() as int - 48)
    }
}

/// Every character of `s` is a decimal digit.
pub open spec fn all_digits(s: Seq<char>) -> bool {
    forall|i: int| 0 <= i < s.len() ==> 48 <= #[trigger] (s[i] as int) <= 57
}

/// The decimal text of `n` reads back as `n`: it is made of digits, it
/// denotes `n` when read most significant digit first, and it has no leading
/// zero except for zero itself.
pub proof fn lemma_decimal_reads_back(n: nat)
    ensures
        all_digits(spec_decimal(n)),
        decimal_value(spec_decimal(n)) == n,
        spec_decimal(n).len() >= 1,
        spec_decimal(n)[0] == '0' ==> n == 0,
    decreases n,
{
    assert(digit_char((n % 10) as int) as int == 48 + n % 10);
    if n >= 10 {
        lemma_decimal_reads_back(n / 10);
        let s = spec_decimal(n);
        assert(s.drop_last() =~= spec_decimal(n / 10));
        assert(s[0] == spec_decimal(n / 10)[0]);
        assert(s.last() == digit_char((n % 10) as int));
        assert(decimal_value(s) == 10 * decimal_value(spec_decimal(n / 10)) + (n % 10));
    } else {
        let s = spec_decimal(n);
        assert(s.drop_last() =~= Seq::<char>::empty());
        assert(decimal_value(s.drop_last()) == 0);
        assert(decimal_value(s) == 10 * decimal_value(s.drop_last()) + (s.last() as int - 48));
    }
}

/// Append the decimal representation of `n` to `s`.
pub fn push_decimal(s: &mut String, n: usize)
    ensures
        final(s)@ == old(s)@ + spec_decimal(n as nat),
    decreases n,
{
    if n >= 10 {
        push_decimal(s, n / 10);
    }
    let d = (n % 10) as u8;
    let c = (48u8 + d) as char;
    assert(c == digit_char((n % 10) as int));
    push_char(s, c);
    assert(spec_decimal(n as nat) == if n < 10 {
        seq![digit_char(n as int)]
    } else {
        spec_decimal((n / 10) as nat).push(digit_char((n % 10) as int))
    });
}

} // verus!

verus! {

/// The characters of a string, in order.
pub fn str_chars(s: &str) -> (res: Vec<char>)
    ensures
        res@ == s@,
{
    broadcast use vstd::string::group_string_axioms;

    let mut out: Vec<char> = Vec::new();
    for c in it: s.chars()
        invariant
            it.seq() == s@,
            out@ == it.seq().take(it.index() as int),
    {
        assert(it.seq().take(it.index() + 1) =~= it.seq().take(it.index() as int).push(c));
        out.push(c);
    }
    assert(s@.take(s@.len() as int) =~= s@);
    out
}

/// A string holding the given characters.
pub fn string_from_chars(cs: &[char]) -> (res: String)
    ensures
        res@ == cs@,
{
    let mut s = String::new();
    let n = cs.len();
    let mut i: usize = 0;
    while i < n
        invariant
            n == cs@.len(),
            i <= n,
            s@ == cs@.take(i as int),
        decreases n - i,
    {
        push_char(&mut s, cs[i]);
        assert(cs@.take(i + 1) =~= cs@.take(i as int).push(cs@[i as int]));
        i = i + 1;
    }
    assert(cs@.take(n as int) =~= cs@);
    s
}

} // verus!
