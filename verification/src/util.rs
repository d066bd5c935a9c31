//! Comparing texts.

use vstd::prelude::*;
use vstd::std_specs::iter::IteratorSpec;
use vstd::utf8::*;

verus! {

/// Whether `lhs` begins with `rhs`, character for character.
pub fn compare_string(lhs: &String, rhs: &String) -> (r: bool)
    ensures
        r == rhs@.is_prefix_of(lhs@),
{
    let mut chars = lhs.as_str().chars();
    let mut wanted = rhs.as_str().chars();
    let ghost mut k: int = 0;
    loop
        invariant
            0 <= k <= lhs@.len(),
            k <= rhs@.len(),
            chars.remaining() == lhs@.skip(k),
            wanted.remaining() == rhs@.skip(k),
            lhs@.take(k) == rhs@.take(k),
        decreases rhs@.len() - k,
    {
        match wanted.next() {
            None => {
                assert(rhs@.take(k) == rhs@);
                return true;
            },
            Some(c) => {
                match chars.next() {
                    Some(ch) => {
                        if ch != c {
                            return false;
                        }
                    },
                    None => {
                        return false;
                    },
                }
            },
        }
        proof {
            assert(lhs@.take(k + 1) == lhs@.take(k).push(lhs@[k]));
            assert(rhs@.take(k + 1) == rhs@.take(k).push(rhs@[k]));
            assert(lhs@.skip(k).drop_first() == lhs@.skip(k + 1));
            assert(rhs@.skip(k).drop_first() == rhs@.skip(k + 1));
            k = k + 1;
        }
    }
}

/// Whether two texts are the same.
pub fn same_text(a: &str, b: &str) -> (r: bool)
    ensures
        r == (a@ == b@),
{
    let x = a.as_bytes();
    let y = b.as_bytes();
    proof {
        encode_utf8_decode_utf8(a@);
        encode_utf8_decode_utf8(b@);
    }
    same_bytes(x, y)
}

/// Whether two slices hold the same bytes.
pub fn same_bytes(a: &[u8], b: &[u8]) -> (r: bool)
    ensures
        r == (a@ == b@),
{
    if a.len() != b.len() {
        return false;
    }
    let mut i: usize = 0;
    while i < a.len()
        invariant
            a@.len() == b@.len(),
            i <= a@.len(),
            a@.take(i as int) == b@.take(i as int),
        decreases a@.len() - i,
    {
        if a[i] != b[i] {
            return false;
        }
        i += 1;
        assert(a@.take(i as int) == a@.take(i - 1).push(a@[i - 1]));
        assert(b@.take(i as int) == b@.take(i - 1).push(b@[i - 1]));
    }
    assert(a@.take(i as int) == a@);
    assert(b@.take(i as int) == b@);
    true
}

} // verus!
