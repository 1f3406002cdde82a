//! Conversions between byte strings, Rust strings and character vectors.
//! The rules of this library are stated over sequences of characters; the
//! functions here carry values between those sequences and `String`.

use vstd::prelude::*;
use vstd::std_specs::iter::IteratorSpec;

verus! {

/// `String::push` appends one character.
pub assume_specification[ String::push ](s: &mut String, ch: char)
    ensures
        final(s)@ == old(s)@.push(ch),
;

/// The characters of `s`, in order.
pub fn to_chars(s: &str) -> (v: Vec<char>)
    ensures
        v@ == s@,
{
    let mut v: Vec<char> = Vec::new();
    for c in it: s.chars()
        invariant
            it.seq() == s@,
            v@ == it.seq().take(it.index() as int),
    {
        v.push(c);
        assert(it.seq().take(it.index() + 1) =~= it.seq().take(it.index() as int).push(c));
    }
    assert(v@ =~= s@);
    v
}

/// The string made of the characters of `v`, in order.
pub fn from_chars(v: &[char]) -> (s: String)
    ensures
        s@ == v@,
{
    let mut s = String::new();
    let mut i: usize = 0;
    while i < v.len()
        invariant
            i <= v@.len(),
            s@ == v@.take(i as int),
        decreases v@.len() - i,
    {
        s.push(v[i]);
        assert(v@.take(i + 1) =~= v@.take(i as int).push(v@[i as int]));
        i += 1;
    }
    assert(v@.take(v@.len() as int) =~= v@);
    s
}

/// The text that `String::from_utf8_lossy` makes of a byte string: the bytes
/// decoded as UTF-8, each invalid sequence replaced by U+FFFD.
pub uninterp spec fn utf8_lossy(bytes: Seq<u8>) -> Seq<char>;

/// Calls `String::from_utf8_lossy` and owns the result. The result is named
/// [`utf8_lossy`]; where the input is valid UTF-8 the function replaces
/// nothing, so the result is the decoded text.
#[verifier::external_body]
pub(crate) fn lossy_string(bytes: &[u8]) -> (s: String)
    ensures
        s@ == utf8_lossy(bytes@),
        vstd::utf8::valid_utf8(bytes@) ==> s@ == vstd::utf8::decode_utf8(bytes@),
{
    String::from_utf8_lossy(bytes).into_owned()
}

/// Calls `String::from_utf8`, which accepts exactly the valid UTF-8 byte
/// strings and then yields their decoded text.
#[verifier::external_body]
pub(crate) fn utf8_string(bytes: Vec<u8>) -> (r: Option<String>)
    ensures
        r is Some <==> vstd::utf8::valid_utf8(bytes@),
        r matches Some(s) ==> s@ == vstd::utf8::decode_utf8(bytes@),
{
    String::from_utf8(bytes).ok()
}

/// The character that stands for the decimal digit `d`.
pub open spec fn digit_char(d: int) -> char {
    if d == 0 {
        '0'
    } else if d == 1 {
        '1'
    } else if d == 2 {
        '2'
    } else if d == 3 {
        '3'
    } else if d == 4 {
        '4'
    } else if d == 5 {
        '5'
    } else if d == 6 {
        '6'
    } else if d == 7 {
        '7'
    } else if d == 8 {
        '8'
    } else {
        '9'
    }
}

/// The decimal notation of `n`, without sign or leading zeros.
pub open spec fn decimal(n: nat) -> Seq<char>
    decreases n,
{
    if n < 10 {
        seq![digit_char(n as int)]
    } else {
        decimal(n / 10).push(digit_char((n % 10) as int))
    }
}

fn digit(d: u64) -> (c: char)
    requires
        d < 10,
    ensures
        c == digit_char(d as int),
{
    if d == 0 {
        '0'
    } else if d == 1 {
        '1'
    } else if d == 2 {
        '2'
    } else if d == 3 {
        '3'
    } else if d == 4 {
        '4'
    } else if d == 5 {
        '5'
    } else if d == 6 {
        '6'
    } else if d == 7 {
        '7'
    } else if d == 8 {
        '8'
    } else {
        '9'
    }
}

spec fn decimal_prefix(m: nat) -> Seq<char> {
    if m == 0 {
        Seq::<char>::empty()
    } else {
        decimal(m)
    }
}

/// Appends the decimal notation of `n` to `out`.
pub fn push_decimal(out: &mut Vec<char>, n: u64)
    ensures
        final(out)@ == old(out)@ + decimal(n as nat),
{
    let mut low_first: Vec<char> = Vec::new();
    low_first.push(digit(n % 10));
    let mut m: u64 = n / 10;
    assert(decimal(n as nat) =~= decimal_prefix(m as nat) + low_first@.reverse());
    while m > 0
        invariant
            low_first@.len() >= 1,
            decimal(n as nat) == decimal_prefix(m as nat) + low_first@.reverse(),
        decreases m,
    {
        let ghost before = low_first@;
        low_first.push(digit(m % 10));
        assert(low_first@.reverse() =~= seq![digit_char((m % 10) as int)] + before.reverse());
        assert(decimal(m as nat) =~= decimal_prefix((m / 10) as nat) + seq![
            digit_char((m % 10) as int),
        ]);
        m = m / 10;
    }
    assert(decimal(n as nat) =~= low_first@.reverse());
    let mut i: usize = low_first.len();
    while i > 0
        invariant
            i <= low_first@.len(),
            out@ == old(out)@ + low_first@.reverse().take(low_first@.len() - i),
        decreases i,
    {
        i -= 1;
        out.push(low_first[i]);
        assert(low_first@.reverse().take(low_first@.len() - i) =~= low_first@.reverse().take(
            low_first@.len() - i - 1,
        ).push(low_first@[i as int]));
    }
    assert(low_first@.reverse().take(low_first@.len() as int) =~= low_first@.reverse());
}

/// The decimal notation of `n` as a string.
pub fn decimal_string(n: u64) -> (s: String)
    ensures
        s@ == decimal(n as nat),
{
    let mut chars: Vec<char> = Vec::new();
    push_decimal(&mut chars, n);
    from_chars(chars.as_slice())
}

/// Appends every character of `more` to `out`.
pub fn push_chars(out: &mut Vec<char>, more: &[char])
    ensures
        final(out)@ == old(out)@ + more@,
{
    let mut i: usize = 0;
    while i < more.len()
        invariant
            i <= more@.len(),
            out@ == old(out)@ + more@.take(i as int),
        decreases more@.len() - i,
    {
        out.push(more[i]);
        assert(more@.take(i + 1) =~= more@.take(i as int).push(more@[i as int]));
        i += 1;
    }
    assert(more@.take(more@.len() as int) =~= more@);
}

/// Appends every byte of `more` to `out`.
pub fn push_bytes(out: &mut Vec<u8>, more: &[u8])
    ensures
        final(out)@ == old(out)@ + more@,
{
    let mut i: usize = 0;
    while i < more.len()
        invariant
            i <= more@.len(),
            out@ == old(out)@ + more@.take(i as int),
        decreases more@.len() - i,
    {
        out.push(more[i]);
        assert(more@.take(i + 1) =~= more@.take(i as int).push(more@[i as int]));
        i += 1;
    }
    assert(more@.take(more@.len() as int) =~= more@);
}

/// `host`, a colon, and the decimal notation of `port`.
pub open spec fn host_port(host: Seq<char>, port: u16) -> Seq<char> {
    host + seq![':'] + decimal(port as nat)
}

/// The address string `host:port`.
pub fn format_host_port(host: &str, port: u16) -> (addr: String)
    ensures
        addr@ == host_port(host@, port),
{
    let mut chars = to_chars(host);
    chars.push(':');
    push_decimal(&mut chars, port as u64);
    from_chars(chars.as_slice())
}

/// `a` followed by `b`.
pub fn concat(a: &str, b: &str) -> (s: String)
    ensures
        s@ == a@ + b@,
{
    let mut chars = to_chars(a);
    let more = to_chars(b);
    push_chars(&mut chars, more.as_slice());
    from_chars(chars.as_slice())
}

/// `a`, then `b`, then `c`.
pub fn concat3(a: &str, b: &str, c: &str) -> (s: String)
    ensures
        s@ == a@ + b@ + c@,
{
    let mut chars = to_chars(a);
    let more = to_chars(b);
    push_chars(&mut chars, more.as_slice());
    let last = to_chars(c);
    push_chars(&mut chars, last.as_slice());
    from_chars(chars.as_slice())
}

/// Whether two texts are the same, character for character.
pub fn same_text(a: &str, b: &str) -> (same: bool)
    ensures
        same == (a@ == b@),
{
    crate::auth::token_matches(a, b)
}

/// What the `Debug` format of `str` makes of a text: the text in double
/// quotes, with quotes, backslashes and unprintable characters escaped.
pub uninterp spec fn debug_quoted(text: Seq<char>) -> Seq<char>;

/// Formats a text with `{:?}`. The result is named [`debug_quoted`].
#[verifier::external_body]
pub(crate) fn quoted(text: &str) -> (s: String)
    ensures
        s@ == debug_quoted(text@),
{
    format!("{:?}", text)
}

/// Whether `prefix` stands at the front of `text`.
pub open spec fn has_prefix(text: Seq<char>, prefix: Seq<char>) -> bool {
    prefix.len() <= text.len() && text.take(prefix.len() as int) == prefix
}

/// Whether `text` starts with `prefix`.
pub fn starts_with(text: &[char], prefix: &[char]) -> (b: bool)
    ensures
        b == has_prefix(text@, prefix@),
{
    if prefix.len() > text.len() {
        return false;
    }
    let mut i: usize = 0;
    assert(text@.take(0) =~= prefix@.take(0));
    while i < prefix.len()
        invariant
            prefix@.len() <= text@.len(),
            i <= prefix@.len(),
            text@.take(i as int) == prefix@.take(i as int),
        decreases prefix@.len() - i,
    {
        if text[i] != prefix[i] {
            proof {
                if text@.take(prefix@.len() as int) == prefix@ {
                    assert(text@.take(prefix@.len() as int)[i as int] == prefix@[i as int]);
                }
            }
            return false;
        }
        assert(text@.take(i + 1) =~= text@.take(i as int).push(text@[i as int]));
        assert(prefix@.take(i + 1) =~= prefix@.take(i as int).push(prefix@[i as int]));
        i += 1;
    }
    assert(prefix@.take(prefix@.len() as int) =~= prefix@);
    true
}

/// What `str::trim` leaves of a text: the text without the white space,
/// in the sense of Unicode, at its two ends.
pub uninterp spec fn trimmed(text: Seq<char>) -> Seq<char>;

/// Calls `str::trim` and owns the result, which is named [`trimmed`].
#[verifier::external_body]
pub(crate) fn trim(text: &str) -> (s: String)
    ensures
        s@ == trimmed(text@),
{
    text.trim().to_owned()
}

/// What `str::to_lowercase` makes of a text: its lower-case form in the
/// sense of Unicode.
pub uninterp spec fn lowercased(text: Seq<char>) -> Seq<char>;

/// Calls `str::to_lowercase`; the result is named [`lowercased`].
#[verifier::external_body]
pub(crate) fn lowercase(text: &str) -> (s: String)
    ensures
        s@ == lowercased(text@),
{
    text.to_lowercase()
}

/// The texts of a list of strings, in order.
pub open spec fn texts(list: Seq<String>) -> Seq<Seq<char>> {
    list.map_values(|s: String| s@)
}

/// Whether `pattern` occurs in `text` at index `i`.
pub open spec fn occurs_at(text: Seq<char>, pattern: Seq<char>, i: int) -> bool {
    0 <= i && i + pattern.len() <= text.len() && text.subrange(i, i + pattern.len()) == pattern
}

/// Whether `pattern` occurs somewhere in `text`.
pub open spec fn has_substring(text: Seq<char>, pattern: Seq<char>) -> bool {
    exists|i: int| occurs_at(text, pattern, i)
}

/// Whether `text` ends with `suffix`.
pub open spec fn has_suffix(text: Seq<char>, suffix: Seq<char>) -> bool {
    suffix.len() <= text.len() && text.skip(text.len() - suffix.len()) == suffix
}

fn matches_at(text: &[char], pattern: &[char], at: usize) -> (b: bool)
    requires
        at + pattern@.len() <= text@.len(),
    ensures
        b == occurs_at(text@, pattern@, at as int),
{
    let n = text.len();
    let part = vstd::slice::slice_subrange(text, at, at + pattern.len());
    let same = starts_with(part, pattern);
    assert(part@.take(pattern@.len() as int) =~= part@);
    same
}

/// Whether `pattern` occurs somewhere in `text`.
pub fn contains(text: &[char], pattern: &[char]) -> (b: bool)
    ensures
        b == has_substring(text@, pattern@),
{
    if pattern.len() > text.len() {
        return false;
    }
    let last = text.len() - pattern.len();
    let mut i: usize = 0;
    loop
        invariant
            last == text@.len() - pattern@.len(),
            i <= last,
            forall|j: int| 0 <= j < i ==> !occurs_at(text@, pattern@, j),
        decreases last - i,
    {
        if matches_at(text, pattern, i) {
            return true;
        }
        if i == last {
            return false;
        }
        i += 1;
    }
}

/// Whether `text` ends with `suffix`.
pub fn ends_with(text: &[char], suffix: &[char]) -> (b: bool)
    ensures
        b == has_suffix(text@, suffix@),
{
    if suffix.len() > text.len() {
        return false;
    }
    let at = text.len() - suffix.len();
    let same = matches_at(text, suffix, at);
    assert(text@.subrange(at as int, text@.len() as int) =~= text@.skip(at as int));
    same
}

} // verus!
