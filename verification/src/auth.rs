//! Token comparison and the admission rule of the HTTP surface.

use vstd::prelude::*;

verus! {

/// Compares two byte strings of equal length without stopping at the first
/// difference: every pair of bytes is looked at.
pub fn constant_time_eq(a: &[u8], b: &[u8]) -> (eq: bool)
    ensures
        eq == (a@ == b@),
{
    if a.len() != b.len() {
        return false;
    }
    let mut diff: u8 = 0;
    let mut i: usize = 0;
    assert(a@.take(0) =~= b@.take(0));
    while i < a.len()
        invariant
            i <= a@.len(),
            a@.len() == b@.len(),
            (diff == 0) <==> (a@.take(i as int) == b@.take(i as int)),
        decreases a@.len() - i,
    {
        let x = a[i];
        let y = b[i];
        assert(((diff | (x ^ y)) == 0) <==> (diff == 0 && x == y)) by (bit_vector);
        proof {
            let n = i as int;
            assert(a@.take(n + 1) =~= a@.take(n).push(x));
            assert(b@.take(n + 1) =~= b@.take(n).push(y));
            if a@.take(n + 1) == b@.take(n + 1) {
                assert(a@.take(n + 1).take(n) =~= a@.take(n));
                assert(b@.take(n + 1).take(n) =~= b@.take(n));
                assert(a@.take(n + 1)[n] == x);
                assert(b@.take(n + 1)[n] == y);
            }
        }
        diff = diff | (x ^ y);
        i += 1;
    }
    assert(a@.take(a@.len() as int) =~= a@);
    assert(b@.take(b@.len() as int) =~= b@);
    diff == 0
}

/// Two texts are equal exactly when their UTF-8 encodings are.
pub proof fn lemma_same_text_same_bytes(a: Seq<char>, b: Seq<char>)
    ensures
        (vstd::utf8::encode_utf8(a) == vstd::utf8::encode_utf8(b)) <==> a == b,
{
    vstd::utf8::encode_utf8_decode_utf8(a);
    vstd::utf8::encode_utf8_decode_utf8(b);
}

/// Whether `candidate` is the process token. The comparison looks at every
/// byte of two strings of equal length.
pub fn token_matches(candidate: &str, token: &str) -> (ok: bool)
    ensures
        ok == (candidate@ == token@),
{
    proof {
        lemma_same_text_same_bytes(candidate@, token@);
    }
    constant_time_eq(candidate.as_bytes(), token.as_bytes())
}

} // verus!
