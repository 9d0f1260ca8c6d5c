//! A scanner for the JSON wire format that carries proofs and
//! verification keys: objects with string keys whose values are strings,
//! numbers, booleans, nulls, or (nested) arrays of strings.
//!
//! String escapes are not part of the wire format — coordinate strings
//! are plain numerals — so a backslash in a string is rejected, and
//! nesting is bounded.  Every scanning function is specified exactly: a
//! spec-level twin defines the accepted text and the positions and
//! strings produced, and each executable function provably equals its
//! twin, so the parsers above can state success and denotation over the
//! raw character sequence.

use vstd::prelude::*;
use crate::text::{chars_eq, to_chars};

verus! {

/// Nesting depth admitted by the scanner; the wire format itself never
/// nests more than four levels.
pub const MAX_DEPTH: u64 = 64;

/// JSON whitespace.
pub open spec fn is_ws(c: char) -> bool {
    c == ' ' || c == '\t' || c == '\n' || c == '\r'
}

/// A numeric-literal character.
pub open spec fn is_num_char(c: char) -> bool {
    ('0' <= c && c <= '9') || c == '-' || c == '+' || c == '.' || c == 'e' || c == 'E'
}

/// The first position at or after `i` holding no whitespace.
pub open spec fn sws(s: Seq<char>, i: int) -> int
    decreases s.len() - i,
{
    if 0 <= i && i < s.len() && is_ws(s[i]) {
        sws(s, i + 1)
    } else {
        i
    }
}

/// The position after the closing quote of a string whose contents
/// start at `j`, or nothing when the string is unterminated or holds a
/// backslash.
pub open spec fn string_end(s: Seq<char>, j: int) -> Option<int>
    decreases s.len() - j,
{
    if !(0 <= j && j < s.len()) {
        None
    } else if s[j] == '"' {
        Some(j + 1)
    } else if s[j] == '\\' {
        None
    } else {
        string_end(s, j + 1)
    }
}

/// The contents and end position of a quoted string starting at `i`.
pub open spec fn spec_scan_string(s: Seq<char>, i: int) -> Option<(Seq<char>, int)> {
    if 0 <= i && i < s.len() && s[i] == '"' {
        match string_end(s, i + 1) {
            Some(e) => Some((s.subrange(i + 1, e - 1), e)),
            None => None,
        }
    } else {
        None
    }
}

/// The position after the run of numeric characters starting at `j`.
pub open spec fn num_end(s: Seq<char>, j: int) -> int
    decreases s.len() - j,
{
    if 0 <= j && j < s.len() && is_num_char(s[j]) {
        num_end(s, j + 1)
    } else {
        j
    }
}

/// The characters of `lit` stand verbatim at `i`.
pub open spec fn lit_at(s: Seq<char>, i: int, lit: Seq<char>) -> bool {
    0 <= i && i + lit.len() <= s.len() && s.subrange(i, i + lit.len() as int) == lit
}

/// The position after one JSON value starting at `i`, or nothing when
/// no well-formed value of depth at most `d` starts there.
pub open spec fn sv(s: Seq<char>, i: int, d: nat) -> Option<int>
    decreases d, s.len() - i,
{
    if d == 0 || !(0 <= i && i < s.len()) {
        None
    } else {
        let c = s[i];
        if c == '"' {
            match spec_scan_string(s, i) {
                Some(p) => Some(p.1),
                None => None,
            }
        } else if c == '[' {
            let j = sws(s, i + 1);
            if !(i < j && j <= s.len()) {
                None
            } else if j < s.len() && s[j] == ']' {
                Some(j + 1)
            } else {
                sv_items(s, j, d)
            }
        } else if c == '{' {
            let j = sws(s, i + 1);
            if !(i < j && j <= s.len()) {
                None
            } else if j < s.len() && s[j] == '}' {
                Some(j + 1)
            } else {
                sv_pairs(s, j, d)
            }
        } else if c == 't' {
            if lit_at(s, i, "true"@) {
                Some(i + 4)
            } else {
                None
            }
        } else if c == 'f' {
            if lit_at(s, i, "false"@) {
                Some(i + 5)
            } else {
                None
            }
        } else if c == 'n' {
            if lit_at(s, i, "null"@) {
                Some(i + 4)
            } else {
                None
            }
        } else {
            if num_end(s, i) == i {
                None
            } else {
                Some(num_end(s, i))
            }
        }
    }
}

/// The position after the remaining elements of an array, the first of
/// which starts at `i`.
pub open spec fn sv_items(s: Seq<char>, i: int, d: nat) -> Option<int>
    decreases d, s.len() - i,
{
    if d == 0 {
        None
    } else {
        match sv(s, i, (d - 1) as nat) {
            None => None,
            Some(j2) => {
                if !(i < j2 && j2 <= s.len()) {
                    None
                } else {
                    let j3 = sws(s, j2);
                    if j3 < s.len() && s[j3] == ',' {
                        let j4 = sws(s, j3 + 1);
                        if i < j4 && j4 <= s.len() {
                            sv_items(s, j4, d)
                        } else {
                            None
                        }
                    } else if j3 < s.len() && s[j3] == ']' {
                        Some(j3 + 1)
                    } else {
                        None
                    }
                }
            },
        }
    }
}

/// The position after the remaining key-value pairs of an object, the
/// first key of which starts at `i`.
pub open spec fn sv_pairs(s: Seq<char>, i: int, d: nat) -> Option<int>
    decreases d, s.len() - i,
{
    if d == 0 {
        None
    } else {
        match spec_scan_string(s, i) {
            None => None,
            Some((_k, j2)) => {
                if !(i < j2 && j2 <= s.len()) {
                    None
                } else {
                    let j3 = sws(s, j2);
                    if !(j3 < s.len() && s[j3] == ':') {
                        None
                    } else {
                        let j4 = sws(s, j3 + 1);
                        match sv(s, j4, (d - 1) as nat) {
                            None => None,
                            Some(j5) => {
                                if !(i < j5 && j5 <= s.len()) {
                                    None
                                } else {
                                    let j6 = sws(s, j5);
                                    if j6 < s.len() && s[j6] == ',' {
                                        let j7 = sws(s, j6 + 1);
                                        if i < j7 && j7 <= s.len() {
                                            sv_pairs(s, j7, d)
                                        } else {
                                            None
                                        }
                                    } else if j6 < s.len() && s[j6] == '}' {
                                        Some(j6 + 1)
                                    } else {
                                        None
                                    }
                                }
                            },
                        }
                    }
                }
            },
        }
    }
}

/// The whole input is one well-formed document of the wire subset.
#[verifier::opaque]
pub open spec fn spec_document_ok(s: Seq<char>) -> bool {
    match sv(s, sws(s, 0), MAX_DEPTH as nat) {
        Some(j2) => sws(s, j2) == s.len(),
        None => false,
    }
}

/// The span of the value stored under `key` among the pairs whose
/// first key starts at `i`; first match wins.
pub open spec fn span_pairs(s: Seq<char>, key: Seq<char>, i: int) -> Option<(int, int)>
    decreases s.len() - i,
{
    match spec_scan_string(s, i) {
        None => None,
        Some((k, j2)) => {
            if !(i < j2 && j2 <= s.len()) {
                None
            } else {
                let j3 = sws(s, j2);
                if !(j3 < s.len() && s[j3] == ':') {
                    None
                } else {
                    let j4 = sws(s, j3 + 1);
                    match sv(s, j4, MAX_DEPTH as nat) {
                        None => None,
                        Some(j5) => {
                            if k == key {
                                Some((j4, j5))
                            } else if !(i < j5 && j5 <= s.len()) {
                                None
                            } else {
                                let j6 = sws(s, j5);
                                if j6 < s.len() && s[j6] == ',' {
                                    let j7 = sws(s, j6 + 1);
                                    if i < j7 && j7 <= s.len() {
                                        span_pairs(s, key, j7)
                                    } else {
                                        None
                                    }
                                } else {
                                    None
                                }
                            }
                        },
                    }
                }
            }
        },
    }
}

/// The span of the value stored under `key` in the top-level object.
#[verifier::opaque]
pub open spec fn span_of_key(s: Seq<char>, key: Seq<char>) -> Option<(int, int)> {
    let j0 = sws(s, 0);
    if j0 < s.len() && s[j0] == '{' {
        span_pairs(s, key, sws(s, j0 + 1))
    } else {
        None
    }
}

/// The strings of an array's remaining elements, the first of which
/// starts at `i`, with the position after the closing bracket.
pub open spec fn ssa_items(s: Seq<char>, i: int) -> Option<(Seq<Seq<char>>, int)>
    decreases s.len() - i,
{
    match spec_scan_string(s, i) {
        None => None,
        Some((cs, j2)) => {
            if !(i < j2 && j2 <= s.len()) {
                None
            } else {
                let j3 = sws(s, j2);
                if j3 < s.len() && s[j3] == ',' {
                    let j4 = sws(s, j3 + 1);
                    if i < j4 && j4 <= s.len() {
                        match ssa_items(s, j4) {
                            Some((rest, e)) => Some((seq![cs] + rest, e)),
                            None => None,
                        }
                    } else {
                        None
                    }
                } else if j3 < s.len() && s[j3] == ']' {
                    Some((seq![cs], j3 + 1))
                } else {
                    None
                }
            }
        },
    }
}

/// The strings of the array starting (after whitespace) at `from`.
#[verifier::opaque]
pub open spec fn ssa(s: Seq<char>, from: int) -> Option<(Seq<Seq<char>>, int)> {
    let j = sws(s, from);
    if !(j < s.len() && s[j] == '[') {
        None
    } else {
        let j2 = sws(s, j + 1);
        if j2 < s.len() && s[j2] == ']' {
            Some((Seq::<Seq<char>>::empty(), j2 + 1))
        } else {
            ssa_items(s, j2)
        }
    }
}

/// The rows of an array of string arrays, the first of which starts at
/// `i`, with the position after the closing bracket.
pub open spec fn ssm_items(s: Seq<char>, i: int) -> Option<(Seq<Seq<Seq<char>>>, int)>
    decreases s.len() - i,
{
    match ssa(s, i) {
        None => None,
        Some((row, j2)) => {
            if !(i < j2 && j2 <= s.len()) {
                None
            } else {
                let j3 = sws(s, j2);
                if j3 < s.len() && s[j3] == ',' {
                    let j4 = sws(s, j3 + 1);
                    if i < j4 && j4 <= s.len() {
                        match ssm_items(s, j4) {
                            Some((rest, e)) => Some((seq![row] + rest, e)),
                            None => None,
                        }
                    } else {
                        None
                    }
                } else if j3 < s.len() && s[j3] == ']' {
                    Some((seq![row], j3 + 1))
                } else {
                    None
                }
            }
        },
    }
}

/// The rows of the array of string arrays starting (after whitespace)
/// at `from`.
#[verifier::opaque]
pub open spec fn ssm(s: Seq<char>, from: int) -> Option<Seq<Seq<Seq<char>>>> {
    let j = sws(s, from);
    if !(j < s.len() && s[j] == '[') {
        None
    } else {
        let j2 = sws(s, j + 1);
        if j2 < s.len() && s[j2] == ']' {
            Some(Seq::<Seq<Seq<char>>>::empty())
        } else {
            match ssm_items(s, j2) {
                Some((rows, _e)) => Some(rows),
                None => None,
            }
        }
    }
}

/// Advances past blanks, tabs and line breaks.
fn skip_ws(v: &Vec<char>, i: usize) -> (j: usize)
    requires
        i <= v@.len(),
    ensures
        i <= j <= v@.len(),
        j == sws(v@, i as int),
    decreases v@.len() - i,
{
    if i < v.len() {
        let c = v[i];
        if c == ' ' || c == '\t' || c == '\n' || c == '\r' {
            return skip_ws(v, i + 1);
        }
    }
    i
}

/// Finds the end of a string whose contents start at `j`.
fn find_string_end(v: &Vec<char>, j: usize) -> (r: Option<usize>)
    requires
        j <= v@.len(),
    ensures
        r is Some <==> string_end(v@, j as int) is Some,
        r matches Some(e) ==> string_end(v@, j as int) == Some(e as int) && j < e <= v@.len(),
    decreases v@.len() - j,
{
    if j >= v.len() {
        return None;
    }
    let c = v[j];
    if c == '"' {
        Some(j + 1)
    } else if c == '\\' {
        None
    } else {
        find_string_end(v, j + 1)
    }
}

/// Reads a quoted string starting at `i`, returning its contents and
/// the position after the closing quote.
fn scan_string(v: &Vec<char>, i: usize) -> (r: Option<(Vec<char>, usize)>)
    requires
        i <= v@.len(),
    ensures
        r is Some <==> spec_scan_string(v@, i as int) is Some,
        r matches Some(p) ==> spec_scan_string(v@, i as int) == Some((p.0@, p.1 as int)) && i < p.1
            <= v@.len(),
{
    let n = v.len();
    if i >= n || v[i] != '"' {
        return None;
    }
    let e = match find_string_end(v, i + 1) {
        Some(e) => e,
        None => {
            return None;
        },
    };
    let mut s: Vec<char> = Vec::new();
    let mut k = i + 1;
    while k < e - 1
        invariant
            i + 1 <= k <= e - 1 || (k == i + 1 && e == i + 1 + 1),
            i + 2 <= e <= v@.len(),
            s@ == v@.subrange(i + 1, k as int),
        decreases e - k,
    {
        s.push(v[k]);
        proof {
            assert(s@ =~= v@.subrange(i + 1, k + 1));
        }
        k = k + 1;
    }
    proof {
        assert(s@ =~= v@.subrange(i + 1, e - 1));
    }
    Some((s, e))
}

/// Reads a run of numeric characters starting at `j`.
fn scan_num_end(v: &Vec<char>, j: usize) -> (r: usize)
    requires
        j <= v@.len(),
    ensures
        j <= r <= v@.len(),
        r == num_end(v@, j as int),
    decreases v@.len() - j,
{
    if j < v.len() {
        let c = v[j];
        if ('0' <= c && c <= '9') || c == '-' || c == '+' || c == '.' || c == 'e' || c == 'E' {
            return scan_num_end(v, j + 1);
        }
    }
    j
}

/// Checks that the characters of `lit` appear verbatim at `i`.
fn scan_literal(v: &Vec<char>, i: usize, lit: &Vec<char>) -> (r: bool)
    requires
        i <= v@.len(),
    ensures
        r == lit_at(v@, i as int, lit@),
{
    let n = v.len();
    let m = lit.len();
    if m > n || i > n - m {
        proof {
            assert(!lit_at(v@, i as int, lit@));
        }
        return false;
    }
    let mut k: usize = 0;
    while k < m
        invariant
            k <= m,
            m == lit@.len(),
            n == v@.len(),
            i + m <= n,
            forall|t: int| 0 <= t < k ==> v@[i + t] == lit@[t],
        decreases m - k,
    {
        if v[i + k] != lit[k] {
            proof {
                assert(v@.subrange(i as int, i + lit@.len() as int)[k as int] != lit@[k as int]);
            }
            return false;
        }
        k = k + 1;
    }
    proof {
        assert(v@.subrange(i as int, i + lit@.len() as int) =~= lit@);
    }
    true
}

/// Skips one JSON value starting at `i`, returning the position just
/// after it, exactly as `sv` describes.
fn skip_value(v: &Vec<char>, i: usize, depth: u64) -> (r: Option<usize>)
    requires
        i <= v@.len(),
    ensures
        r is Some <==> sv(v@, i as int, depth as nat) is Some,
        r matches Some(j) ==> sv(v@, i as int, depth as nat) == Some(j as int) && i < j <= v@.len(),
    decreases depth, v@.len() - i,
{
    if depth == 0 {
        return None;
    }
    let n = v.len();
    if i >= n {
        return None;
    }
    let c = v[i];
    if c == '"' {
        match scan_string(v, i) {
            Some(p) => Some(p.1),
            None => None,
        }
    } else if c == '[' {
        let j = skip_ws(v, i + 1);
        if j < n && v[j] == ']' {
            return Some(j + 1);
        }
        skip_items(v, j, depth)
    } else if c == '{' {
        let j = skip_ws(v, i + 1);
        if j < n && v[j] == '}' {
            return Some(j + 1);
        }
        skip_pairs(v, j, depth)
    } else if c == 't' {
        let lit = to_chars("true");
        proof {
            reveal_strlit("true");
            assert(lit@.len() == 4);
        }
        if scan_literal(v, i, &lit) {
            Some(i + 4)
        } else {
            None
        }
    } else if c == 'f' {
        let lit = to_chars("false");
        proof {
            reveal_strlit("false");
            assert(lit@.len() == 5);
        }
        if scan_literal(v, i, &lit) {
            Some(i + 5)
        } else {
            None
        }
    } else if c == 'n' {
        let lit = to_chars("null");
        proof {
            reveal_strlit("null");
            assert(lit@.len() == 4);
        }
        if scan_literal(v, i, &lit) {
            Some(i + 4)
        } else {
            None
        }
    } else {
        let e = scan_num_end(v, i);
        if e == i {
            None
        } else {
            Some(e)
        }
    }
}

/// Skips the remaining elements of an array, exactly as `sv_items`
/// describes.
fn skip_items(v: &Vec<char>, i: usize, depth: u64) -> (r: Option<usize>)
    requires
        i <= v@.len(),
        depth >= 1,
    ensures
        r is Some <==> sv_items(v@, i as int, depth as nat) is Some,
        r matches Some(j) ==> sv_items(v@, i as int, depth as nat) == Some(j as int) && i < j
            <= v@.len(),
    decreases depth, v@.len() - i,
{
    let n = v.len();
    let j2 = match skip_value(v, i, depth - 1) {
        Some(x) => x,
        None => {
            return None;
        },
    };
    let j3 = skip_ws(v, j2);
    if j3 < n && v[j3] == ',' {
        let j4 = skip_ws(v, j3 + 1);
        skip_items(v, j4, depth)
    } else if j3 < n && v[j3] == ']' {
        Some(j3 + 1)
    } else {
        None
    }
}

/// Skips the remaining key-value pairs of an object, exactly as
/// `sv_pairs` describes.
fn skip_pairs(v: &Vec<char>, i: usize, depth: u64) -> (r: Option<usize>)
    requires
        i <= v@.len(),
        depth >= 1,
    ensures
        r is Some <==> sv_pairs(v@, i as int, depth as nat) is Some,
        r matches Some(j) ==> sv_pairs(v@, i as int, depth as nat) == Some(j as int) && i < j
            <= v@.len(),
    decreases depth, v@.len() - i,
{
    let n = v.len();
    let j2 = match scan_string(v, i) {
        Some(p) => p.1,
        None => {
            return None;
        },
    };
    let j3 = skip_ws(v, j2);
    if !(j3 < n && v[j3] == ':') {
        return None;
    }
    let j4 = skip_ws(v, j3 + 1);
    let j5 = match skip_value(v, j4, depth - 1) {
        Some(x) => x,
        None => {
            return None;
        },
    };
    let j6 = skip_ws(v, j5);
    if j6 < n && v[j6] == ',' {
        let j7 = skip_ws(v, j6 + 1);
        skip_pairs(v, j7, depth)
    } else if j6 < n && v[j6] == '}' {
        Some(j6 + 1)
    } else {
        None
    }
}

/// Checks that the whole input is one well-formed JSON document of the
/// wire subset.
pub(crate) fn json_document_ok(v: &Vec<char>) -> (r: bool)
    ensures
        r == spec_document_ok(v@),
{
    proof {
        reveal(spec_document_ok);
    }
    let j = skip_ws(v, 0);
    match skip_value(v, j, MAX_DEPTH) {
        Some(j2) => skip_ws(v, j2) == v.len(),
        None => false,
    }
}

/// Looks up a key among the remaining pairs of the top-level object,
/// exactly as `span_pairs` describes.
fn find_span_pairs(v: &Vec<char>, kc: &Vec<char>, i: usize) -> (r: Option<(usize, usize)>)
    requires
        i <= v@.len(),
    ensures
        r is Some <==> span_pairs(v@, kc@, i as int) is Some,
        r matches Some(p) ==> span_pairs(v@, kc@, i as int) == Some((p.0 as int, p.1 as int)) && p.0
            < p.1 <= v@.len(),
    decreases v@.len() - i,
{
    let n = v.len();
    let (k, j2) = match scan_string(v, i) {
        Some(p) => p,
        None => {
            return None;
        },
    };
    let j3 = skip_ws(v, j2);
    if !(j3 < n && v[j3] == ':') {
        return None;
    }
    let j4 = skip_ws(v, j3 + 1);
    let j5 = match skip_value(v, j4, MAX_DEPTH) {
        Some(x) => x,
        None => {
            return None;
        },
    };
    if chars_eq(&k, kc) {
        return Some((j4, j5));
    }
    let j6 = skip_ws(v, j5);
    if j6 < n && v[j6] == ',' {
        let j7 = skip_ws(v, j6 + 1);
        find_span_pairs(v, kc, j7)
    } else {
        None
    }
}

/// Looks up a key of the top-level object and returns the span of its
/// value, first match first, exactly as `span_of_key` describes.
pub(crate) fn object_get_span(v: &Vec<char>, key: &str) -> (r: Option<(usize, usize)>)
    ensures
        r is Some <==> span_of_key(v@, key@) is Some,
        r matches Some(p) ==> span_of_key(v@, key@) == Some((p.0 as int, p.1 as int)) && p.0 < p.1
            <= v@.len(),
{
    proof {
        reveal(span_of_key);
    }
    let kc = to_chars(key);
    let n = v.len();
    let j0 = skip_ws(v, 0);
    if !(j0 < n && v[j0] == '{') {
        return None;
    }
    let j = skip_ws(v, j0 + 1);
    find_span_pairs(v, &kc, j)
}

/// Reads the remaining elements of a string array, exactly as
/// `ssa_items` describes.
fn parse_string_items(v: &Vec<char>, i: usize) -> (r: Option<(Vec<Vec<char>>, usize)>)
    requires
        i <= v@.len(),
    ensures
        r is Some <==> ssa_items(v@, i as int) is Some,
        r matches Some(p) ==> ssa_items(v@, i as int) == Some(
            (p.0@.map_values(|x: Vec<char>| x@), p.1 as int),
        ) && i < p.1 <= v@.len(),
    decreases v@.len() - i,
{
    let n = v.len();
    let (cs, j2) = match scan_string(v, i) {
        Some(p) => p,
        None => {
            return None;
        },
    };
    let j3 = skip_ws(v, j2);
    if j3 < n && v[j3] == ',' {
        let j4 = skip_ws(v, j3 + 1);
        let (mut rest, e) = match parse_string_items(v, j4) {
            Some(p) => p,
            None => {
                return None;
            },
        };
        let ghost old_rest = rest@;
        rest.insert(0, cs);
        proof {
            assert(rest@ =~= seq![cs].add(old_rest));
            assert(rest@.map_values(|x: Vec<char>| x@) =~= seq![cs@] + old_rest.map_values(
                |x: Vec<char>| x@,
            ));
        }
        Some((rest, e))
    } else if j3 < n && v[j3] == ']' {
        let mut out: Vec<Vec<char>> = Vec::new();
        out.push(cs);
        proof {
            assert(out@.map_values(|x: Vec<char>| x@) =~= seq![cs@]);
        }
        Some((out, j3 + 1))
    } else {
        None
    }
}

/// Reads an array of strings starting at `from`, returning the strings
/// and the position after the closing bracket, exactly as `ssa`
/// describes.
pub(crate) fn parse_string_array(v: &Vec<char>, from: usize) -> (r: Option<(Vec<Vec<char>>, usize)>)
    requires
        from <= v@.len(),
    ensures
        r is Some <==> ssa(v@, from as int) is Some,
        r matches Some(p) ==> ssa(v@, from as int) == Some(
            (p.0@.map_values(|x: Vec<char>| x@), p.1 as int),
        ) && from <= p.1 <= v@.len(),
{
    proof {
        reveal(ssa);
    }
    let n = v.len();
    let j = skip_ws(v, from);
    if !(j < n && v[j] == '[') {
        return None;
    }
    let j2 = skip_ws(v, j + 1);
    if j2 < n && v[j2] == ']' {
        let out: Vec<Vec<char>> = Vec::new();
        proof {
            assert(out@.map_values(|x: Vec<char>| x@) =~= Seq::<Seq<char>>::empty());
        }
        return Some((out, j2 + 1));
    }
    parse_string_items(v, j2)
}

/// Reads the remaining rows of a nested string array, exactly as
/// `ssm_items` describes.
fn parse_matrix_items(v: &Vec<char>, i: usize) -> (r: Option<(Vec<Vec<Vec<char>>>, usize)>)
    requires
        i <= v@.len(),
    ensures
        r is Some <==> ssm_items(v@, i as int) is Some,
        r matches Some(p) ==> ssm_items(v@, i as int) == Some(
            (p.0@.map_values(|row: Vec<Vec<char>>| row@.map_values(|x: Vec<char>| x@)), p.1 as int),
        ) && i < p.1 <= v@.len(),
    decreases v@.len() - i,
{
    let n = v.len();
    let (row, j2) = match parse_string_array(v, i) {
        Some(p) => p,
        None => {
            return None;
        },
    };
    if j2 <= i {
        // A row never ends where it began; the spec twin rejects this
        // case the same way.
        proof {
            assert(!(i < j2));
        }
        return None;
    }
    let j3 = skip_ws(v, j2);
    if j3 < n && v[j3] == ',' {
        let j4 = skip_ws(v, j3 + 1);
        let (mut rest, e) = match parse_matrix_items(v, j4) {
            Some(p) => p,
            None => {
                return None;
            },
        };
        let ghost old_rest = rest@;
        rest.insert(0, row);
        proof {
            assert(rest@ =~= seq![row].add(old_rest));
            assert(rest@.map_values(|r2: Vec<Vec<char>>| r2@.map_values(|x: Vec<char>| x@)) =~= seq![
                row@.map_values(|x: Vec<char>| x@),
            ] + old_rest.map_values(|r2: Vec<Vec<char>>| r2@.map_values(|x: Vec<char>| x@)));
        }
        Some((rest, e))
    } else if j3 < n && v[j3] == ']' {
        let mut out: Vec<Vec<Vec<char>>> = Vec::new();
        out.push(row);
        proof {
            assert(out@.map_values(|r2: Vec<Vec<char>>| r2@.map_values(|x: Vec<char>| x@)) =~= seq![
                row@.map_values(|x: Vec<char>| x@),
            ]);
        }
        Some((out, j3 + 1))
    } else {
        None
    }
}

/// Reads an array whose elements are themselves arrays of strings,
/// starting at `from`, exactly as `ssm` describes.
pub(crate) fn parse_string_matrix(v: &Vec<char>, from: usize) -> (r: Option<Vec<Vec<Vec<char>>>>)
    requires
        from <= v@.len(),
    ensures
        r is Some <==> ssm(v@, from as int) is Some,
        r matches Some(m) ==> ssm(v@, from as int) == Some(
            m@.map_values(|row: Vec<Vec<char>>| row@.map_values(|x: Vec<char>| x@)),
        ),
{
    proof {
        reveal(ssm);
    }
    let n = v.len();
    let j = skip_ws(v, from);
    if !(j < n && v[j] == '[') {
        return None;
    }
    let j2 = skip_ws(v, j + 1);
    if j2 < n && v[j2] == ']' {
        let out: Vec<Vec<Vec<char>>> = Vec::new();
        proof {
            assert(out@.map_values(|row: Vec<Vec<char>>| row@.map_values(|x: Vec<char>| x@)) =~= Seq::<
                Seq<Seq<char>>,
            >::empty());
        }
        return Some(out);
    }
    match parse_matrix_items(v, j2) {
        Some(p) => Some(p.0),
        None => None,
    }
}

} // verus!
