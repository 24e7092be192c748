//! Small verified text utilities shared by the rest of the library:
//! ASCII lowercasing, substring search, and decimal formatting.

use vstd::prelude::*;

verus! {

/// Lowercase mapping for a single character: ASCII letters only,
/// everything else unchanged.
pub open spec fn lower_char(c: char) -> char {
    if 'A' <= c && c <= 'Z' {
        ((c as u32) + 32) as char
    } else {
        c
    }
}

/// The sequence with every character lowercased by `lower_char`.
pub open spec fn lower_seq(s: Seq<char>) -> Seq<char> {
    s.map_values(|c: char| lower_char(c))
}

/// Relies on std `String::push`: appends exactly one character.
#[verifier::external_body]
pub(crate) fn push_char(s: &mut String, c: char)
    ensures
        final(s)@ == old(s)@.push(c),
{
    s.push(c)
}

/// ASCII-lowercase a string; characters outside `A..Z` are kept as they are.
pub fn to_lower_ascii(s: &str) -> (r: String)
    ensures
        r@ == lower_seq(s@),
{
    let n: usize = s.unicode_len();
    let mut out = String::new();
    let mut i: usize = 0;
    while i < n
        invariant
            i <= n,
            n == s@.len(),
            out@ == lower_seq(s@.take(i as int)),
        decreases n - i,
    {
        let c = s.get_char(i);
        let u = c as u32;
        let low: char = if 65 <= u && u <= 90 {
            ((u + 32) as u8) as char
        } else {
            c
        };
        proof {
            assert(low == lower_char(s@[i as int]));
            assert(lower_seq(s@.take(i + 1)) =~= lower_seq(s@.take(i as int)).push(low));
        }
        push_char(&mut out, low);
        i = i + 1;
    }
    proof {
        assert(s@.take(n as int) =~= s@);
    }
    out
}

/// Character-for-character string equality.
pub fn str_eq(a: &str, b: &str) -> (r: bool)
    ensures
        r == (a@ == b@),
{
    let n: usize = a.unicode_len();
    let m: usize = b.unicode_len();
    if n != m {
        return false;
    }
    let mut i: usize = 0;
    while i < n
        invariant
            i <= n,
            n == a@.len(),
            n == b@.len(),
            forall|k: int| 0 <= k < i ==> a@[k] == b@[k],
        decreases n - i,
    {
        if a.get_char(i) != b.get_char(i) {
            return false;
        }
        i = i + 1;
    }
    proof {
        assert(a@ =~= b@);
    }
    true
}

/// Concatenation of two string slices.
pub fn concat_str(a: &str, b: &str) -> (r: String)
    ensures
        r@ == a@ + b@,
{
    let mut out = String::from_str(a);
    out.append(b);
    out
}

/// `needle` occurs contiguously somewhere in `hay`.
pub open spec fn contains_seq(hay: Seq<char>, needle: Seq<char>) -> bool {
    exists|i: int|
        0 <= i <= hay.len() - needle.len() && #[trigger] hay.subrange(i, i + needle.len())
            == needle
}

/// Whether the characters of `hay` starting at `i` match `needle`.
fn matches_at(hay: &str, hay_len: usize, needle: &str, needle_len: usize, i: usize) -> (r: bool)
    requires
        hay_len == hay@.len(),
        needle_len == needle@.len(),
        i + needle_len <= hay_len,
    ensures
        r == (hay@.subrange(i as int, i + needle@.len()) == needle@),
{
    let mut j: usize = 0;
    while j < needle_len
        invariant
            j <= needle_len,
            hay_len == hay@.len(),
            needle_len == needle@.len(),
            i + needle_len <= hay_len,
            forall|k: int| 0 <= k < j ==> hay@[i + k] == needle@[k],
        decreases needle_len - j,
    {
        if hay.get_char(i + j) != needle.get_char(j) {
            proof {
                assert(hay@.subrange(i as int, i + needle@.len())[j as int] == hay@[i + j]);
            }
            return false;
        }
        j = j + 1;
    }
    proof {
        assert(hay@.subrange(i as int, i + needle@.len()) =~= needle@);
    }
    true
}

/// Substring search; exact over the character sequences of both strings.
pub fn contains_sub(hay: &str, needle: &str) -> (r: bool)
    ensures
        r == contains_seq(hay@, needle@),
{
    let hay_len: usize = hay.unicode_len();
    let needle_len: usize = needle.unicode_len();
    if needle_len > hay_len {
        return false;
    }
    if needle_len == 0 {
        proof {
            assert(hay@.subrange(0, 0 + needle@.len() as int) =~= needle@);
        }
        return true;
    }
    let mut i: usize = 0;
    while i <= hay_len - needle_len
        invariant
            needle_len <= hay_len,
            hay_len == hay@.len(),
            needle_len == needle@.len(),
            needle_len >= 1,
            i <= hay_len - needle_len + 1,
            forall|k: int|
                0 <= k < i ==> #[trigger] hay@.subrange(k, k + needle@.len()) != needle@,
        decreases hay_len - i,
    {
        if matches_at(hay, hay_len, needle, needle_len, i) {
            return true;
        }
        i = i + 1;
    }
    false
}

/// The decimal digit character for `d` (`0 <= d <= 9`).
pub open spec fn dec_digit(d: int) -> char {
    ((48 + d) as u32) as char
}

/// The decimal representation of a non-negative integer, most
/// significant digit first, with no leading zeros (`0` is `"0"`).
pub open spec fn dec_seq(n: int) -> Seq<char>
    decreases n,
{
    if n < 10 {
        seq![dec_digit(n)]
    } else {
        dec_seq(n / 10).push(dec_digit(n % 10))
    }
}

/// Format an unsigned integer in decimal.
pub fn u64_to_dec(n: u64) -> (r: String)
    ensures
        r@ == dec_seq(n as int),
{
    let mut digits: Vec<u8> = Vec::new();
    let mut m: u64 = n;
    if m == 0 {
        digits.push(48);
        proof {
            assert(digit_chars(digits@).reverse() =~= dec_seq(0));
        }
    }
    while m > 0
        invariant
            m == 0 ==> digit_chars(digits@).reverse() == dec_seq(n as int),
            m > 0 ==> dec_seq(n as int) == dec_seq(m as int) + digit_chars(digits@).reverse(),
            m > 0 && n > 0 ==> true,
            forall|k: int| 0 <= k < digits@.len() ==> 48 <= #[trigger] digits@[k] <= 57,
        decreases m,
    {
        let d: u8 = (m % 10) as u8 + 48;
        let ghost before = digits@;
        digits.push(d);
        let m2: u64 = m / 10;
        proof {
            assert(digit_chars(digits@) =~= digit_chars(before).push(dec_digit(m as int % 10)));
            assert(digit_chars(digits@).reverse() =~= seq![
                dec_digit(m as int % 10),
            ] + digit_chars(before).reverse());
            if m2 > 0 {
                assert(dec_seq(m as int) == dec_seq(m as int / 10).push(dec_digit(m as int % 10)));
                assert(dec_seq(m2 as int) + digit_chars(digits@).reverse() =~= (dec_seq(
                    m2 as int,
                ).push(dec_digit(m as int % 10))) + digit_chars(before).reverse());
            } else {
                assert(m < 10);
                assert(dec_seq(m as int) =~= seq![dec_digit(m as int)]);
                if n > 0 {
                    assert(digit_chars(digits@).reverse() =~= dec_seq(m as int) + digit_chars(
                        before,
                    ).reverse());
                }
            }
        }
        m = m2;
    }
    let mut out = String::new();
    let count: usize = digits.len();
    let mut k: usize = 0;
    while k < count
        invariant
            k <= count,
            count == digits@.len(),
            digit_chars(digits@).reverse() == dec_seq(n as int),
            forall|j: int| 0 <= j < digits@.len() ==> 48 <= #[trigger] digits@[j] <= 57,
            out@ == dec_seq(n as int).take(k as int),
        decreases count - k,
    {
        let b: u8 = digits[count - 1 - k];
        proof {
            assert(digit_chars(digits@).reverse()[k as int] == digit_chars(digits@)[count - 1
                - k]);
            assert(dec_seq(n as int).take(k + 1) =~= dec_seq(n as int).take(k as int).push(
                dec_seq(n as int)[k as int],
            ));
        }
        push_char(&mut out, b as char);
        k = k + 1;
    }
    proof {
        assert(dec_seq(n as int).len() == digits@.len());
        assert(dec_seq(n as int).take(count as int) =~= dec_seq(n as int));
    }
    out
}

/// The decimal representation of an integer, with a leading minus
/// sign when it is negative.
pub open spec fn int_dec(v: int) -> Seq<char> {
    if v < 0 {
        seq!['-'] + dec_seq(-v)
    } else {
        dec_seq(v)
    }
}

/// Format a signed integer in decimal.
pub fn i64_to_dec(v: i64) -> (r: String)
    ensures
        r@ == int_dec(v as int),
{
    if v < 0 {
        let magnitude: u64 = (-(v as i128)) as u64;
        let mut out = String::from_str("-");
        let digits = u64_to_dec(magnitude);
        out.append(digits.as_str());
        proof {
            reveal_strlit("-");
            assert(out@ =~= int_dec(v as int));
        }
        out
    } else {
        u64_to_dec(v as u64)
    }
}

/// The characters of a sequence of decimal digit bytes.
pub open spec fn digit_chars(bytes: Seq<u8>) -> Seq<char> {
    bytes.map_values(|b: u8| dec_digit(b - 48))
}

/// `p` is a prefix of `s`.
pub open spec fn has_prefix(s: Seq<char>, p: Seq<char>) -> bool {
    s.len() >= p.len() && s.subrange(0, p.len() as int) == p
}

/// The full Unicode lowercasing of a character sequence, as
/// `str::to_lowercase` computes it.
pub uninterp spec fn lower_of(s: Seq<char>) -> Seq<char>;

/// Relies on `str::to_lowercase`: the result depends on the
/// characters alone.
#[verifier::external_body]
pub(crate) fn to_lowercase_full(s: &str) -> (r: String)
    ensures
        r@ == lower_of(s@),
{
    s.to_lowercase()
}

/// Lexicographic order on character sequences: a prefix comes before
/// its extensions, and otherwise the first differing character decides.
pub open spec fn lex_le(a: Seq<char>, b: Seq<char>) -> bool
    decreases a.len(),
{
    if a.len() == 0 {
        true
    } else if b.len() == 0 {
        false
    } else if a[0] != b[0] {
        (a[0] as u32) < (b[0] as u32)
    } else {
        lex_le(a.drop_first(), b.drop_first())
    }
}

/// Lexicographic comparison of two strings.
pub fn str_lex_le(a: &str, b: &str) -> (r: bool)
    ensures
        r == lex_le(a@, b@),
{
    let an: usize = a.unicode_len();
    let bn: usize = b.unicode_len();
    let mut i: usize = 0;
    proof {
        assert(a@.skip(0) =~= a@);
        assert(b@.skip(0) =~= b@);
    }
    while i < an && i < bn
        invariant
            i <= an,
            i <= bn,
            an == a@.len(),
            bn == b@.len(),
            forall|k: int| 0 <= k < i ==> a@[k] == b@[k],
            lex_le(a@, b@) == lex_le(a@.skip(i as int), b@.skip(i as int)),
        decreases an - i,
    {
        let ca = a.get_char(i);
        let cb = b.get_char(i);
        proof {
            assert(a@.skip(i as int)[0] == a@[i as int]);
            assert(b@.skip(i as int)[0] == b@[i as int]);
            assert(a@.skip(i as int).drop_first() =~= a@.skip(i + 1));
            assert(b@.skip(i as int).drop_first() =~= b@.skip(i + 1));
        }
        if ca != cb {
            return (ca as u32) < (cb as u32);
        }
        i = i + 1;
    }
    proof {
        if i >= an {
            assert(a@.skip(i as int).len() == 0);
        } else {
            assert(b@.skip(i as int).len() == 0);
            assert(a@.skip(i as int).len() > 0);
        }
    }
    an <= bn
}

/// The sequence with its longest prefix of characters satisfying `p` removed.
pub open spec fn trim_front_if(s: Seq<char>, p: spec_fn(char) -> bool) -> Seq<char>
    decreases s.len(),
{
    if s.len() > 0 && p(s[0]) {
        trim_front_if(s.drop_first(), p)
    } else {
        s
    }
}

/// The sequence with its longest suffix of characters satisfying `p` removed.
pub open spec fn trim_back_if(s: Seq<char>, p: spec_fn(char) -> bool) -> Seq<char>
    decreases s.len(),
{
    if s.len() > 0 && p(s.last()) {
        trim_back_if(s.drop_last(), p)
    } else {
        s
    }
}

/// Front trimming keeps the suffix that starts at the first character
/// not satisfying `p`.
pub proof fn lemma_trim_front_at(s: Seq<char>, p: spec_fn(char) -> bool, k: int)
    requires
        0 <= k <= s.len(),
        forall|j: int| 0 <= j < k ==> p(s[j]),
        k == s.len() || !p(s[k]),
    ensures
        trim_front_if(s, p) == s.subrange(k, s.len() as int),
    decreases s.len(),
{
    if k == 0 {
        assert(trim_front_if(s, p) =~= s.subrange(0, s.len() as int));
    } else {
        assert(p(s[0]));
        lemma_trim_front_at(s.drop_first(), p, k - 1);
        assert(s.drop_first().subrange(k - 1, s.drop_first().len() as int) =~= s.subrange(
            k,
            s.len() as int,
        ));
    }
}

/// Back trimming keeps the prefix that ends at the last character
/// not satisfying `p`.
pub proof fn lemma_trim_back_at(s: Seq<char>, p: spec_fn(char) -> bool, k: int)
    requires
        0 <= k <= s.len(),
        forall|j: int| k <= j < s.len() ==> p(s[j]),
        k == 0 || !p(s[k - 1]),
    ensures
        trim_back_if(s, p) == s.subrange(0, k),
    decreases s.len(),
{
    if k == s.len() {
        assert(trim_back_if(s, p) =~= s.subrange(0, k));
    } else {
        assert(p(s.last()));
        lemma_trim_back_at(s.drop_last(), p, k);
        assert(s.drop_last().subrange(0, k) =~= s.subrange(0, k));
    }
}

} // verus!
