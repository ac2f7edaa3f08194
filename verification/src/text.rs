//! Byte-level helpers shared by the mechanisms: searching and comparing
//! byte buffers, UTF-8 decoding, case folding and decimal conversions.

use vstd::prelude::*;
use vstd::utf8::{decode_utf8, encode_scalar, encode_utf8, valid_utf8};

verus! {

/// Index of the first occurrence of `b` in `s`, if there is one.
pub open spec fn spec_find_byte(s: Seq<u8>, b: u8) -> Option<int>
    decreases s.len(),
{
    if s.len() == 0 {
        None
    } else if s[0] == b {
        Some(0int)
    } else {
        match spec_find_byte(s.drop_first(), b) {
            Some(i) => Some(i + 1),
            None => None,
        }
    }
}

/// What `spec_find_byte` returns is the first occurrence, or there is none.
pub proof fn lemma_find_byte(s: Seq<u8>, b: u8)
    ensures
        match spec_find_byte(s, b) {
            Some(i) => 0 <= i < s.len() && s[i] == b && (forall|j: int| 0 <= j < i ==> s[j] != b),
            None => forall|j: int| 0 <= j < s.len() ==> s[j] != b,
        },
    decreases s.len(),
{
    if s.len() > 0 && s[0] != b {
        lemma_find_byte(s.drop_first(), b);
        assert forall|j: int| 1 <= j < s.len() implies s.drop_first()[j - 1] == s[j] by {}
    }
}

/// A first occurrence pins `spec_find_byte` down.
pub proof fn lemma_find_byte_at(s: Seq<u8>, b: u8, i: int)
    requires
        0 <= i < s.len(),
        s[i] == b,
        forall|j: int| 0 <= j < i ==> s[j] != b,
    ensures
        spec_find_byte(s, b) == Some(i),
{
    lemma_find_byte(s, b);
    match spec_find_byte(s, b) {
        Some(k) => {
            if k < i {
                assert(s[k] == b);
            } else if k > i {
                assert(s[i] != b);
            }
        }
        None => {
            assert(s[i] != b);
        }
    }
}

/// No occurrence pins `spec_find_byte` down as well.
pub proof fn lemma_find_byte_absent(s: Seq<u8>, b: u8)
    requires
        forall|j: int| 0 <= j < s.len() ==> s[j] != b,
    ensures
        spec_find_byte(s, b) is None,
{
    lemma_find_byte(s, b);
    match spec_find_byte(s, b) {
        Some(k) => {
            assert(s[k] != b);
        }
        None => {}
    }
}

/// First index of `b` at or after `from` in `s`.
pub fn find_byte_from(s: &[u8], from: usize, b: u8) -> (r: Option<usize>)
    requires
        from <= s@.len(),
    ensures
        match r {
            Some(i) => from <= i < s@.len() && s@[i as int] == b && (forall|j: int|
                from <= j < i ==> s@[j] != b),
            None => forall|j: int| from <= j < s@.len() ==> s@[j] != b,
        },
{
    let mut i: usize = from;
    while i < s.len()
        invariant
            from <= i <= s@.len(),
            forall|j: int| from <= j < i ==> s@[j] != b,
        decreases s@.len() - i,
    {
        if s[i] == b {
            return Some(i);
        }
        i = i + 1;
    }
    None
}

/// Whether `s` holds the byte `b` anywhere.
pub fn contains_byte(s: &[u8], b: u8) -> (r: bool)
    ensures
        r == s@.contains(b),
{
    match find_byte_from(s, 0, b) {
        Some(i) => {
            proof {
                assert(s@[i as int] == b);
            }
            true
        }
        None => {
            proof {
                assert forall|j: int| 0 <= j < s@.len() implies s@[j] != b by {}
            }
            false
        }
    }
}

/// Byte-for-byte equality of two buffers.
pub fn bytes_eq(a: &[u8], b: &[u8]) -> (r: bool)
    ensures
        r == (a@ == b@),
{
    if a.len() != b.len() {
        return false;
    }
    let mut i: usize = 0;
    while i < a.len()
        invariant
            i <= a@.len(),
            a@.len() == b@.len(),
            forall|j: int| 0 <= j < i ==> a@[j] == b@[j],
        decreases a@.len() - i,
    {
        if a[i] != b[i] {
            return false;
        }
        i = i + 1;
    }
    proof {
        assert(a@ =~= b@);
    }
    true
}

/// Relies on `String::from_utf8`: it succeeds exactly on valid UTF-8
/// input and returns the text those bytes encode.
#[verifier::external_body]
pub fn utf8_to_string(b: &[u8]) -> (r: Option<String>)
    ensures
        r is Some <==> valid_utf8(b@),
        r matches Some(s) ==> s@ == decode_utf8(b@),
{
    String::from_utf8(b.to_vec()).ok()
}

/// What `str::to_lowercase` returns: a function of the characters alone.
pub uninterp spec fn lower_of(s: Seq<char>) -> Seq<char>;

/// Relies on `str::to_lowercase`: the result depends on the characters
/// of the input alone.
#[verifier::external_body]
pub fn to_lowercase(s: &str) -> (r: String)
    ensures
        r@ == lower_of(s@),
{
    s.to_lowercase()
}

/// Text free of the NUL character encodes to bytes free of the NUL
/// byte.
pub proof fn lemma_encode_utf8_no_nul(s: Seq<char>)
    requires
        forall|i: int| 0 <= i < s.len() ==> s[i] != '\0',
    ensures
        forall|j: int| 0 <= j < encode_utf8(s).len() ==> encode_utf8(s)[j] != 0u8,
    decreases s.len(),
{
    if s.len() > 0 {
        let c = s[0];
        let v = c as u32;
        vstd::utf8::char_is_scalar(c);
        vstd::utf8::char_u32_cast(c, v);
        if v == 0 {
            assert('\0' as u32 == 0);
            vstd::utf8::char_u32_cast('\0', 0);
            assert(c == '\0');
        }
        assert((v & 0x7F) != 0 ==> ((v & 0x7F) as u8) != 0) by (bit_vector);
        assert(v <= 0x7F ==> (v & 0x7F) == v) by (bit_vector);
        assert((0xC0u8 | (((v >> 6) & 0x1F) as u8)) != 0) by (bit_vector);
        assert((0xE0u8 | (((v >> 12) & 0x0F) as u8)) != 0) by (bit_vector);
        assert((0xF0u8 | (((v >> 18) & 0x7) as u8)) != 0) by (bit_vector);
        assert((0x80u8 | ((v & 0x3F) as u8)) != 0) by (bit_vector);
        assert((0x80u8 | (((v >> 6) & 0x3F) as u8)) != 0) by (bit_vector);
        assert((0x80u8 | (((v >> 12) & 0x3F) as u8)) != 0) by (bit_vector);
        assert(forall|j: int|
            0 <= j < encode_scalar(v).len() ==> encode_scalar(v)[j] != 0u8);
        assert(forall|i: int| 0 <= i < s.drop_first().len() ==> s.drop_first()[i] != '\0');
        lemma_encode_utf8_no_nul(s.drop_first());
        assert forall|j: int|
            0 <= j < encode_utf8(s).len() implies encode_utf8(s)[j] != 0u8 by {
            if j < encode_scalar(v).len() {
                assert(encode_utf8(s)[j] == encode_scalar(v)[j]);
            } else {
                assert(encode_utf8(s)[j] == encode_utf8(s.drop_first())[j - encode_scalar(
                    v,
                ).len()]);
            }
        }
    }
}

/// Whether `c` is an ASCII decimal digit.
pub open spec fn spec_is_digit(c: char) -> bool {
    48 <= c as u32 <= 57
}

/// Whether every character of `s` is an ASCII decimal digit.
pub open spec fn spec_all_digits(s: Seq<char>) -> bool {
    forall|i: int| 0 <= i < s.len() ==> spec_is_digit(#[trigger] s[i])
}

/// The number the digit string `s` denotes.
pub open spec fn spec_digits_value(s: Seq<char>) -> int
    decreases s.len(),
{
    if s.len() == 0 {
        0
    } else {
        spec_digits_value(s.drop_last()) * 10 + (s.last() as u32 - 48)
    }
}

/// A digit string denotes a nonnegative number.
pub proof fn lemma_digits_value_nonneg(s: Seq<char>)
    requires
        spec_all_digits(s),
    ensures
        spec_digits_value(s) >= 0,
    decreases s.len(),
{
    if s.len() > 0 {
        assert(spec_all_digits(s.drop_last()));
        lemma_digits_value_nonneg(s.drop_last());
    }
}

/// A prefix of a digit string denotes no more than the whole string.
pub proof fn lemma_digits_value_mono(s: Seq<char>, k: int)
    requires
        spec_all_digits(s),
        0 <= k <= s.len(),
    ensures
        spec_digits_value(s.take(k)) <= spec_digits_value(s),
    decreases s.len(),
{
    if k < s.len() {
        assert(spec_all_digits(s.drop_last()));
        lemma_digits_value_mono(s.drop_last(), k);
        assert(s.drop_last().take(k) =~= s.take(k));
        lemma_digits_value_nonneg(s.drop_last());
    } else {
        assert(s.take(k) =~= s);
    }
}

/// How `u16::from_str` reads `s`: an optional leading plus sign, then
/// at least one decimal digit, denoting a value that fits in sixteen
/// bits.
pub open spec fn spec_parse_u16(s: Seq<char>) -> Option<u16> {
    let t = if s.len() > 0 && s[0] == '+' {
        s.drop_first()
    } else {
        s
    };
    if t.len() > 0 && spec_all_digits(t) && spec_digits_value(t) <= 65535 {
        Some(spec_digits_value(t) as u16)
    } else {
        None
    }
}

/// Read `s` as a sixteen-bit unsigned decimal number.
pub fn parse_u16(s: &str) -> (r: Option<u16>)
    ensures
        r == spec_parse_u16(s@),
{
    let n = s.unicode_len();
    let mut start: usize = 0;
    if n > 0 && s.get_char(0) == '+' {
        start = 1;
    }
    let ghost t = s@.skip(start as int);
    proof {
        if s@.len() > 0 && s@[0] == '+' {
            assert(t =~= s@.drop_first());
        } else {
            assert(t =~= s@);
        }
    }
    if start >= n {
        return None;
    }
    let mut i: usize = start;
    while i < n
        invariant
            start <= i <= n,
            n == s@.len(),
            t == s@.skip(start as int),
            t == (if s@.len() > 0 && s@[0] == '+' { s@.drop_first() } else { s@ }),
            start <= n,
            forall|j: int| 0 <= j < i - start ==> spec_is_digit(#[trigger] t[j]),
        decreases n - i,
    {
        let c = s.get_char(i);
        let u = c as u32;
        if u < 48 || u > 57 {
            proof {
                assert(t[i - start] == s@[i as int]);
                assert(!spec_is_digit(t[i - start]));
                assert(!spec_all_digits(t));
            }
            return None;
        }
        proof {
            assert(t[i - start] == s@[i as int]);
        }
        i = i + 1;
    }
    proof {
        assert(spec_all_digits(t));
    }
    let mut acc: u32 = 0;
    let mut i: usize = start;
    while i < n
        invariant
            start <= i <= n,
            n == s@.len(),
            t == s@.skip(start as int),
            t == (if s@.len() > 0 && s@[0] == '+' { s@.drop_first() } else { s@ }),
            spec_all_digits(t),
            acc <= 65535,
            acc == spec_digits_value(t.take(i - start)),
        decreases n - i,
    {
        let c = s.get_char(i);
        proof {
            assert(t[i - start] == s@[i as int]);
            assert(spec_is_digit(t[i - start]));
        }
        let d = (c as u32) - 48;
        proof {
            assert(t.take(i - start + 1).drop_last() =~= t.take(i - start));
            assert(t.take(i - start + 1).last() == t[i - start]);
        }
        if acc > 6553 || (acc == 6553 && d > 5) {
            proof {
                assert(spec_digits_value(t.take(i - start + 1)) == acc * 10 + d);
                lemma_digits_value_mono(t, i - start + 1);
                assert(spec_digits_value(t) > 65535);
            }
            return None;
        }
        acc = acc * 10 + d;
        i = i + 1;
    }
    proof {
        assert(t.take(n - start) =~= t);
    }
    Some(acc as u16)
}

/// The decimal digits of `n`, most significant first; empty for zero.
pub open spec fn spec_decimal_bytes(n: int) -> Seq<u8>
    decreases n,
{
    if n <= 0 {
        Seq::empty()
    } else {
        spec_decimal_bytes(n / 10).push((n % 10 + 48) as u8)
    }
}

/// Append the decimal digits of `v` to `out`.
pub fn push_decimal(out: &mut Vec<u8>, v: u16)
    ensures
        final(out)@ == old(out)@ + spec_decimal_bytes(v as int),
    decreases v,
{
    if v == 0 {
        proof {
            assert(old(out)@ + spec_decimal_bytes(0) =~= old(out)@);
        }
        return ;
    }
    push_decimal(out, v / 10);
    out.push((v % 10) as u8 + 48);
    proof {
        assert(out@ =~= old(out)@ + spec_decimal_bytes(v as int));
    }
}

} // verus!
