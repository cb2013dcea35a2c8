//! Minimal `*`-wildcard matcher used for cache-name lookups.
//!
//! The pattern is split on `*`. Without a wildcard the match is exact
//! equality. Otherwise the first non-empty segment must be a prefix of the
//! text, the last non-empty segment a suffix of the remainder, and interior
//! non-empty segments are found in order by a leftmost scan from the current
//! cursor, without backtracking. Empty segments impose no constraint, so a
//! pattern of only `*` matches everything.
//!
//! The non-backtracking interior scan can reject texts that a backtracking
//! matcher would accept; that behaviour is deliberate and is pinned down by
//! the specification below.

use crate::strutil::{chars_eq, range_eq, str_chars};
use vstd::prelude::*;

verus! {

/// Does the pattern contain the `*` wildcard?
pub open spec fn has_wildcard(p: Seq<char>) -> bool {
    exists|i: int| 0 <= i < p.len() && p[i] == '*'
}

/// The pattern split on `*`: one segment more than there are wildcards,
/// segments may be empty.
pub open spec fn split_on_star(p: Seq<char>) -> Seq<Seq<char>>
    decreases p.len(),
{
    if p.len() == 0 {
        seq![Seq::<char>::empty()]
    } else if p[0] == '*' {
        seq![Seq::<char>::empty()] + split_on_star(p.subrange(1, p.len() as int))
    } else {
        let rest = split_on_star(p.subrange(1, p.len() as int));
        seq![seq![p[0]] + rest[0]] + rest.subrange(1, rest.len() as int)
    }
}

/// The leftmost index `j >= from` where `part` occurs in `text`, if any.
pub open spec fn first_hit(text: Seq<char>, part: Seq<char>, from: int) -> Option<int>
    decreases text.len() + 1 - from,
{
    if from < 0 || from + part.len() > text.len() {
        None
    } else if text.subrange(from, from + part.len()) == part {
        Some(from)
    } else {
        first_hit(text, part, from + 1)
    }
}

/// The scan over the split pattern, from segment `i` with the text cursor at
/// `pos`: empty segments bind nothing, the first non-empty segment anchors at
/// the start, the last at the end of the remainder, interior ones advance the
/// cursor to just past their leftmost occurrence.
pub open spec fn glob_parts_from(text: Seq<char>, parts: Seq<Seq<char>>, i: int, pos: int) -> bool
    decreases parts.len() - i,
{
    if i < 0 || i >= parts.len() {
        true
    } else if parts[i].len() == 0 {
        glob_parts_from(text, parts, i + 1, pos)
    } else if i == 0 {
        parts[0].is_prefix_of(text) && glob_parts_from(text, parts, 1, parts[0].len() as int)
    } else if i == parts.len() - 1 {
        parts[i].is_suffix_of(text.subrange(pos, text.len() as int))
    } else {
        match first_hit(text, parts[i], pos) {
            Some(j) => glob_parts_from(text, parts, i + 1, j + parts[i].len()),
            None => false,
        }
    }
}

/// What `glob_match` returns.
pub open spec fn glob_match_spec(text: Seq<char>, pattern: Seq<char>) -> bool {
    let parts = split_on_star(pattern);
    if parts.len() <= 1 {
        text == pattern
    } else {
        glob_parts_from(text, parts, 0, 0)
    }
}

/// Splitting always yields at least one segment.
proof fn lemma_split_len_pos(p: Seq<char>)
    ensures
        split_on_star(p).len() >= 1,
    decreases p.len(),
{
    if p.len() > 0 {
        lemma_split_len_pos(p.subrange(1, p.len() as int));
    }
}

/// A single segment comes out exactly of the patterns without a wildcard.
proof fn lemma_split_single_iff_no_wildcard(p: Seq<char>)
    ensures
        split_on_star(p).len() == 1 <==> !has_wildcard(p),
    decreases p.len(),
{
    if p.len() == 0 {
    } else {
        let tail = p.subrange(1, p.len() as int);
        lemma_split_single_iff_no_wildcard(tail);
        lemma_split_len_pos(tail);
        if p[0] == '*' {
            assert(has_wildcard(p));
        } else {
            if has_wildcard(p) {
                let i = choose|i: int| 0 <= i < p.len() && p[i] == '*';
                assert(tail[i - 1] == '*');
                assert(has_wildcard(tail));
            }
            if has_wildcard(tail) {
                let i = choose|i: int| 0 <= i < tail.len() && tail[i] == '*';
                assert(p[i + 1] == '*');
                assert(has_wildcard(p));
            }
        }
    }
}

/// A pattern without `*` matches exactly the text equal to it.
pub proof fn lemma_exact_without_wildcard(text: Seq<char>, pattern: Seq<char>)
    requires
        !has_wildcard(pattern),
    ensures
        glob_match_spec(text, pattern) == (text == pattern),
{
    lemma_split_single_iff_no_wildcard(pattern);
    lemma_split_len_pos(pattern);
}

/// The pattern of a single `*` matches every text.
pub proof fn lemma_star_matches_all(text: Seq<char>, pattern: Seq<char>)
    requires
        pattern == seq!['*'],
    ensures
        glob_match_spec(text, pattern),
{
    let empty = Seq::<char>::empty();
    assert(pattern.subrange(1, 1) =~= empty);
    assert(split_on_star(empty) == seq![empty]);
    assert(split_on_star(pattern) =~= seq![empty, empty]);
    let parts = split_on_star(pattern);
    assert(glob_parts_from(text, parts, 2, 0));
    assert(glob_parts_from(text, parts, 1, 0));
    assert(glob_parts_from(text, parts, 0, 0));
}

/// Split the pattern's characters on `*`.
fn split_parts(p: &Vec<char>) -> (parts: Vec<Vec<char>>)
    ensures
        parts@.map_values(|v: Vec<char>| v@) == split_on_star(p@),
{
    let plen: usize = p.len();
    let mut parts: Vec<Vec<char>> = Vec::new();
    let mut cur: Vec<char> = Vec::new();
    let mut i: usize = 0;
    proof {
        assert(p@.subrange(0, plen as int) =~= p@);
        lemma_split_len_pos(p@);
        let suffix = split_on_star(p@);
        assert(cur@ + suffix[0] =~= suffix[0]);
        assert(split_on_star(p@) =~~= parts@.map_values(|v: Vec<char>| v@) + seq![
            cur@ + suffix[0],
        ] + suffix.subrange(1, suffix.len() as int));
    }
    while i < plen
        invariant
            plen == p@.len(),
            i <= plen,
            split_on_star(p@) == ({
                let done = parts@.map_values(|v: Vec<char>| v@);
                let suffix = split_on_star(p@.subrange(i as int, plen as int));
                done + seq![cur@ + suffix[0]] + suffix.subrange(1, suffix.len() as int)
            }),
        decreases plen - i,
    {
        proof {
            let s_i = p@.subrange(i as int, plen as int);
            lemma_split_len_pos(s_i);
            assert(s_i.subrange(1, s_i.len() as int) =~= p@.subrange(i + 1, plen as int));
            lemma_split_len_pos(p@.subrange(i + 1, plen as int));
        }
        let ghost old_parts = parts@;
        let ghost old_cur = cur@;
        if p[i] == '*' {
            parts.push(cur);
            cur = Vec::new();
            proof {
                let done_old = old_parts.map_values(|v: Vec<char>| v@);
                let done_new = parts@.map_values(|v: Vec<char>| v@);
                assert(done_new =~= done_old.push(old_cur));
                let s_i = split_on_star(p@.subrange(i as int, plen as int));
                let s_n = split_on_star(p@.subrange(i + 1, plen as int));
                assert(s_i =~= seq![Seq::<char>::empty()] + s_n);
                assert(old_cur + s_i[0] =~= old_cur);
                assert(s_i.subrange(1, s_i.len() as int) =~= s_n);
                assert(cur@ + s_n[0] =~= s_n[0]);
                assert(done_old + seq![old_cur + s_i[0]] + s_i.subrange(1, s_i.len() as int)
                    =~~= done_new + seq![cur@ + s_n[0]] + s_n.subrange(1, s_n.len() as int));
            }
        } else {
            let c = p[i];
            cur.push(c);
            proof {
                let done = parts@.map_values(|v: Vec<char>| v@);
                let s_i = split_on_star(p@.subrange(i as int, plen as int));
                let s_n = split_on_star(p@.subrange(i + 1, plen as int));
                assert(s_i =~= seq![seq![p@[i as int]] + s_n[0]] + s_n.subrange(
                    1,
                    s_n.len() as int,
                ));
                assert(cur@ =~= old_cur + seq![c]);
                assert(cur@ + s_n[0] =~= old_cur + s_i[0]);
                assert(s_i.subrange(1, s_i.len() as int) =~= s_n.subrange(1, s_n.len() as int));
                assert(done + seq![old_cur + s_i[0]] + s_i.subrange(1, s_i.len() as int)
                    =~~= done + seq![cur@ + s_n[0]] + s_n.subrange(1, s_n.len() as int));
            }
        }
        i += 1;
    }
    proof {
        assert(p@.subrange(plen as int, plen as int) =~= Seq::<char>::empty());
        assert(split_on_star(Seq::<char>::empty()) == seq![Seq::<char>::empty()]);
    }
    let ghost old_parts = parts@;
    parts.push(cur);
    proof {
        assert(parts@.map_values(|v: Vec<char>| v@) =~= old_parts.map_values(
            |v: Vec<char>| v@,
        ).push(cur@));
        assert(parts@.map_values(|v: Vec<char>| v@) =~~= split_on_star(p@));
    }
    parts
}

/// Find the leftmost occurrence of `part` in `t` at or after `from`.
fn find_from(t: &Vec<char>, from: usize, part: &Vec<char>) -> (r: Option<usize>)
    requires
        from <= t@.len(),
        part@.len() >= 1,
    ensures
        match r {
            Some(j) => first_hit(t@, part@, from as int) == Some(j as int) && from <= j && j
                + part@.len() <= t@.len(),
            None => first_hit(t@, part@, from as int) is None,
        },
{
    let tlen: usize = t.len();
    let mut j: usize = from;
    while part.len() <= tlen - j
        invariant
            tlen == t@.len(),
            part@.len() >= 1,
            from <= j,
            j <= tlen,
            first_hit(t@, part@, from as int) == first_hit(t@, part@, j as int),
        decreases tlen - j,
    {
        if range_eq(t, j, part) {
            return Some(j);
        }
        j += 1;
    }
    None
}

/// Match `text` against `pattern`, where `*` matches any run of characters
/// and every other character matches itself.
pub fn glob_match(text: &str, pattern: &str) -> (r: bool)
    ensures
        r == glob_match_spec(text@, pattern@),
{
    let t = str_chars(text);
    let p = str_chars(pattern);
    let parts = split_parts(&p);
    let ghost partsv = parts@.map_values(|v: Vec<char>| v@);
    proof {
        lemma_split_len_pos(p@);
    }
    if parts.len() == 1 {
        return chars_eq(&t, &p);
    }
    let tlen: usize = t.len();
    let n: usize = parts.len();
    let mut i: usize = 0;
    let mut pos: usize = 0;
    while i < n
        invariant
            n == parts@.len(),
            n >= 2,
            partsv == parts@.map_values(|v: Vec<char>| v@),
            tlen == t@.len(),
            i <= n,
            pos <= tlen,
            glob_parts_from(t@, partsv, i as int, pos as int) == glob_match_spec(
                text@,
                pattern@,
            ),
        decreases n - i,
    {
        let part = &parts[i];
        if part.len() == 0 {
            i += 1;
        } else if i == 0 {
            if part.len() > tlen || !range_eq(&t, 0, part) {
                proof {
                    assert(!partsv[0].is_prefix_of(t@));
                }
                return false;
            }
            proof {
                assert(partsv[0].is_prefix_of(t@));
            }
            pos = part.len();
            i = 1;
        } else if i == n - 1 {
            if part.len() > tlen - pos {
                proof {
                    assert(!partsv[i as int].is_suffix_of(t@.subrange(pos as int, tlen as int)));
                }
                return false;
            }
            let at = tlen - part.len();
            let hit = range_eq(&t, at, part);
            proof {
                let rem = t@.subrange(pos as int, tlen as int);
                assert(rem.subrange(rem.len() - partsv[i as int].len(), rem.len() as int)
                    =~= t@.subrange(at as int, at + partsv[i as int].len()));
            }
            if !hit {
                return false;
            }
            i += 1;
        } else {
            match find_from(&t, pos, part) {
                Some(j) => {
                    pos = j + part.len();
                    i += 1;
                },
                None => {
                    return false;
                },
            }
        }
    }
    true
}

/// Does the string contain the `*` wildcard?
pub fn contains_wildcard(s: &str) -> (r: bool)
    ensures
        r == has_wildcard(s@),
{
    let v = str_chars(s);
    let n: usize = v.len();
    let mut i: usize = 0;
    while i < n
        invariant
            n == s@.len(),
            v@ == s@,
            i <= n,
            forall|k: int| 0 <= k < i ==> s@[k] != '*',
        decreases n - i,
    {
        if v[i] == '*' {
            return true;
        }
        i += 1;
    }
    false
}

} // verus!
