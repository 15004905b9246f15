//! Byte text: literals, comparison, decimal numbers and letter case.
use vstd::prelude::*;
use vstd::string::StringSliceAdditionalSpecFns;

verus! {

/// The bytes of an ASCII string; any other string stands for the empty text.
pub open spec fn lit(s: Seq<char>) -> Seq<u8> {
    if vstd::utf8::is_ascii_chars(s) {
        Seq::new(s.len(), |i: int| s[i] as u8)
    } else {
        Seq::empty()
    }
}

/// Appends the literal `s` to `out`.
pub fn push_text(out: &mut Vec<u8>, s: &str)
    ensures
        final(out)@ == old(out)@ + lit(s@),
{
    broadcast use vstd::string::is_ascii_spec_bytes;

    if s.is_ascii() {
        out.extend_from_slice(s.as_bytes());
    }
}

/// Appends the bytes of `s` to `out`.
pub fn push_bytes(out: &mut Vec<u8>, s: &[u8])
    ensures
        final(out)@ == old(out)@ + s@,
{
    out.extend_from_slice(s);
}

/// A copy of the bytes of `s`.
pub fn copy_bytes(s: &[u8]) -> (r: Vec<u8>)
    ensures
        r@ == s@,
{
    let mut out: Vec<u8> = Vec::new();
    out.extend_from_slice(s);
    out
}

/// Whether two byte texts are equal.
pub fn same_bytes(a: &[u8], b: &[u8]) -> (r: bool)
    ensures
        r == (a@ == b@),
{
    if a.len() != b.len() {
        return false;
    }
    let mut i: usize = 0;
    while i < a.len()
        invariant
            a.len() == b.len(),
            i <= a.len(),
            forall|k: int| 0 <= k < i ==> a@[k] == b@[k],
        decreases a.len() - i,
    {
        if a[i] != b[i] {
            return false;
        }
        i += 1;
    }
    assert(a@ =~= b@);
    true
}

/// Whether the byte text `a` spells the literal `s`.
pub fn spells(a: &[u8], s: &str) -> (r: bool)
    ensures
        r == (a@ == lit(s@)),
{
    broadcast use vstd::string::is_ascii_spec_bytes;

    if s.is_ascii() {
        assert(s.spec_bytes() == lit(s@));
        same_bytes(a, s.as_bytes())
    } else {
        assert(a@.len() == 0 ==> a@ =~= lit(s@));
        a.len() == 0
    }
}

/// An ASCII letter.
pub open spec fn is_letter(b: u8) -> bool {
    65 <= b <= 90 || 97 <= b <= 122
}

/// An ASCII digit.
pub open spec fn is_digit(b: u8) -> bool {
    48 <= b <= 57
}

/// A byte that may stand in a word: a letter, a digit or an underscore.
pub open spec fn is_word_byte(b: u8) -> bool {
    is_letter(b) || is_digit(b) || b == 95
}

/// A name that may be part of a generated symbol: a letter, then letters,
/// digits and underscores.
pub open spec fn is_identifier(s: Seq<u8>) -> bool {
    &&& s.len() > 0
    &&& is_letter(s[0])
    &&& forall|i: int| 0 <= i < s.len() ==> is_word_byte(#[trigger] s[i])
}

/// Whether `b` is a letter.
pub fn letter(b: u8) -> (r: bool)
    ensures
        r == is_letter(b),
{
    (65 <= b && b <= 90) || (97 <= b && b <= 122)
}

/// Whether `b` may stand in a word.
pub fn word_byte(b: u8) -> (r: bool)
    ensures
        r == is_word_byte(b),
{
    letter(b) || (48 <= b && b <= 57) || b == 95
}

/// Whether `s` is an identifier.
pub fn identifier(s: &[u8]) -> (r: bool)
    ensures
        r == is_identifier(s@),
{
    if s.len() == 0 || !letter(s[0]) {
        return false;
    }
    let mut i: usize = 0;
    while i < s.len()
        invariant
            i <= s.len(),
            forall|k: int| 0 <= k < i ==> is_word_byte(#[trigger] s@[k]),
        decreases s.len() - i,
    {
        if !word_byte(s[i]) {
            return false;
        }
        i += 1;
    }
    true
}

/// The decimal digits of `n`, most significant first, without leading zeros.
pub open spec fn decimal(n: nat) -> Seq<u8>
    decreases n,
{
    if n < 10 {
        seq![(48 + n) as u8]
    } else {
        decimal(n / 10).push((48 + n % 10) as u8)
    }
}

/// Appends `n` in decimal to `out`.
pub fn push_decimal(out: &mut Vec<u8>, n: usize)
    ensures
        final(out)@ == old(out)@ + decimal(n as nat),
    decreases n,
{
    if n >= 10 {
        push_decimal(out, n / 10);
    }
    let digit: u8 = (n % 10) as u8;
    out.push(48u8 + digit);
    assert(final(out)@ =~= old(out)@ + decimal(n as nat));
}

/// The upper-case form of one byte: ASCII small letters change, all else stays.
pub open spec fn upper_byte(b: u8) -> u8 {
    if 97 <= b <= 122 {
        (b - 32) as u8
    } else {
        b
    }
}

/// The upper-case form of a text, byte by byte.
pub open spec fn upper(s: Seq<u8>) -> Seq<u8> {
    Seq::new(s.len(), |i: int| upper_byte(s[i]))
}

/// Appends the upper-case form of `s` to `out`.
pub fn push_upper(out: &mut Vec<u8>, s: &[u8])
    ensures
        final(out)@ == old(out)@ + upper(s@),
{
    let mut i: usize = 0;
    while i < s.len()
        invariant
            i <= s.len(),
            out@ == old(out)@ + upper(s@).take(i as int),
        decreases s.len() - i,
    {
        let b: u8 = s[i];
        let u: u8 = if 97 <= b && b <= 122 { b - 32 } else { b };
        out.push(u);
        assert(upper(s@).take(i + 1) =~= upper(s@).take(i as int).push(u));
        i += 1;
    }
    assert(upper(s@).take(s.len() as int) =~= upper(s@));
}

/// The number of times that the byte `b` occurs in `s`.
pub open spec fn count_byte(s: Seq<u8>, b: u8) -> nat
    decreases s.len(),
{
    if s.len() == 0 {
        0
    } else {
        count_byte(s.drop_last(), b) + if s.last() == b {
            1nat
        } else {
            0nat
        }
    }
}

/// The occurrences in a joined text are those of its two parts.
pub proof fn lemma_count_concat(s: Seq<u8>, t: Seq<u8>, b: u8)
    ensures
        count_byte(s + t, b) == count_byte(s, b) + count_byte(t, b),
    decreases t.len(),
{
    if t.len() == 0 {
        assert(s + t =~= s);
    } else {
        assert((s + t).drop_last() =~= s + t.drop_last());
        lemma_count_concat(s, t.drop_last(), b);
    }
}

/// A byte that stands nowhere in a text occurs no times in it.
pub proof fn lemma_count_none(s: Seq<u8>, b: u8)
    requires
        forall|i: int| 0 <= i < s.len() ==> s[i] != b,
    ensures
        count_byte(s, b) == 0,
    decreases s.len(),
{
    if s.len() > 0 {
        lemma_count_none(s.drop_last(), b);
    }
}

} // verus!
