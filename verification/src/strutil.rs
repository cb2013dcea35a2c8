//! Character-level string helpers shared by the matcher, the classifier and
//! the path builders.
//!
//! Text is handled as sequences of characters: an exec `&str` or `String` is
//! related to its `Seq<char>` view, and a `Vec<char>` gives constant-time
//! indexing for the scanning loops.

use vstd::prelude::*;
use vstd::string::*;

verus! {

/// Collect the characters of a string into a vector.
pub fn str_chars(s: &str) -> (r: Vec<char>)
    ensures
        r@ == s@,
{
    let n = s.unicode_len();
    let mut r: Vec<char> = Vec::new();
    let mut i: usize = 0;
    while i < n
        invariant
            i <= n,
            n == s@.len(),
            r@ == s@.take(i as int),
        decreases n - i,
    {
        let c = s.get_char(i);
        r.push(c);
        proof {
            assert(r@ =~= s@.take(i as int + 1));
        }
        i += 1;
    }
    proof {
        assert(s@.take(n as int) =~= s@);
    }
    r
}

/// Character-wise equality of two vectors.
pub fn chars_eq(a: &Vec<char>, b: &Vec<char>) -> (r: bool)
    ensures
        r == (a@ == b@),
{
    if a.len() != b.len() {
        return false;
    }
    let mut i: usize = 0;
    while i < a.len()
        invariant
            a@.len() == b@.len(),
            i <= a@.len(),
            forall|k: int| 0 <= k < i ==> a@[k] == b@[k],
        decreases a@.len() - i,
    {
        if a[i] != b[i] {
            return false;
        }
        i += 1;
    }
    proof {
        assert(a@ =~= b@);
    }
    true
}

/// Does `part` occur in `t` starting exactly at index `at`?
pub fn range_eq(t: &Vec<char>, at: usize, part: &Vec<char>) -> (r: bool)
    requires
        at + part@.len() <= t@.len(),
    ensures
        r == (t@.subrange(at as int, at + part@.len()) == part@),
{
    let ghost sub = t@.subrange(at as int, at + part@.len());
    let tlen: usize = t.len();
    let mut k: usize = 0;
    while k < part.len()
        invariant
            tlen == t@.len(),
            at + part@.len() <= t@.len(),
            sub == t@.subrange(at as int, at + part@.len()),
            k <= part@.len(),
            forall|j: int| 0 <= j < k ==> t@[at + j] == part@[j],
        decreases part@.len() - k,
    {
        if t[at + k] != part[k] {
            proof {
                assert(sub[k as int] == t@[at + k]);
            }
            return false;
        }
        k += 1;
    }
    proof {
        assert(sub =~= part@);
    }
    true
}

/// Equality of two string slices.
pub fn str_eq(a: &str, b: &str) -> (r: bool)
    ensures
        r == (a@ == b@),
{
    let va = str_chars(a);
    let vb = str_chars(b);
    chars_eq(&va, &vb)
}

/// Does `s` start with `prefix`?
pub fn str_starts_with(s: &str, prefix: &str) -> (r: bool)
    ensures
        r == prefix@.is_prefix_of(s@),
{
    let vs = str_chars(s);
    let vp = str_chars(prefix);
    if vp.len() > vs.len() {
        return false;
    }
    range_eq(&vs, 0, &vp)
}

/// The concatenation of two string slices as an owned string.
pub fn str_concat(a: &str, b: &str) -> (r: String)
    ensures
        r@ == a@ + b@,
{
    let mut r = a.to_owned();
    r.append(b);
    r
}

} // verus!
