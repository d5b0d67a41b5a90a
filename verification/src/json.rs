//! A scanner for the textual JSON envelope the gateway speaks: it walks the
//! members of an object, captures each member's raw value text, and skips
//! nested payloads opaquely (tracking nesting depth and string state, not the
//! payload's own grammar, since payloads are handed on uninterpreted).

use vstd::prelude::*;

verus! {

// ---------------------------------------------------------------------------
// Character classes
// ---------------------------------------------------------------------------

pub open spec fn is_digit(c: char) -> bool {
    c == '0' || c == '1' || c == '2' || c == '3' || c == '4' || c == '5' || c == '6' || c == '7'
        || c == '8' || c == '9'
}

pub open spec fn digit_val(c: char) -> u64 {
    match c {
        '0' => 0,
        '1' => 1,
        '2' => 2,
        '3' => 3,
        '4' => 4,
        '5' => 5,
        '6' => 6,
        '7' => 7,
        '8' => 8,
        '9' => 9,
        _ => 0,
    }
}

/// Characters that may continue a number token. The scan is liberal: the
/// envelope only interprets numbers that turn out to be plain digit runs.
pub open spec fn is_num_char(c: char) -> bool {
    is_digit(c) || c == '-' || c == '+' || c == '.' || c == 'e' || c == 'E'
}

pub fn is_digit_x(c: char) -> (r: bool)
    ensures
        r == is_digit(c),
{
    c == '0' || c == '1' || c == '2' || c == '3' || c == '4' || c == '5' || c == '6' || c == '7'
        || c == '8' || c == '9'
}

pub fn digit_val_x(c: char) -> (r: u64)
    ensures
        r == digit_val(c),
{
    if c == '0' { 0 }
    else if c == '1' { 1 }
    else if c == '2' { 2 }
    else if c == '3' { 3 }
    else if c == '4' { 4 }
    else if c == '5' { 5 }
    else if c == '6' { 6 }
    else if c == '7' { 7 }
    else if c == '8' { 8 }
    else if c == '9' { 9 }
    else { 0 }
}

pub fn is_num_char_x(c: char) -> (r: bool)
    ensures
        r == is_num_char(c),
{
    is_digit_x(c) || c == '-' || c == '+' || c == '.' || c == 'e' || c == 'E'
}

// ---------------------------------------------------------------------------
// Token scanners, as specification functions
// ---------------------------------------------------------------------------

/// Index just past the closing quote of a string whose first content
/// position is i (the opening quote stands at i - 1). A backslash escapes
/// the character after it; the scan fails only at end of input.
pub open spec fn str_end(s: Seq<char>, i: int) -> Option<int>
    decreases s.len() - i,
{
    if i < 0 || i >= s.len() {
        None
    } else if s[i] == '"' {
        Some(i + 1)
    } else if s[i] == '\\' {
        if i + 1 < s.len() {
            str_end(s, i + 2)
        } else {
            None
        }
    } else {
        str_end(s, i + 1)
    }
}

pub proof fn lemma_str_end_bounds(s: Seq<char>, i: int)
    ensures
        str_end(s, i) matches Some(j) ==> i < j && j <= s.len(),
    decreases s.len() - i,
{
    if 0 <= i && i < s.len() {
        if s[i] == '"' {
        } else if s[i] == '\\' {
            if i + 1 < s.len() {
                lemma_str_end_bounds(s, i + 2);
            }
        } else {
            lemma_str_end_bounds(s, i + 1);
        }
    }
}

/// First index at or after i that does not continue a number token.
pub open spec fn num_end(s: Seq<char>, i: int) -> int
    decreases s.len() - i,
{
    if 0 <= i && i < s.len() && is_num_char(s[i]) {
        num_end(s, i + 1)
    } else {
        i
    }
}

pub proof fn lemma_num_end_bounds(s: Seq<char>, i: int)
    requires
        0 <= i <= s.len(),
    ensures
        i <= num_end(s, i) <= s.len(),
    decreases s.len() - i,
{
    if i < s.len() && is_num_char(s[i]) {
        lemma_num_end_bounds(s, i + 1);
    }
}

/// A number scan over a run of number characters ends exactly where the run
/// does.
pub proof fn lemma_num_end_run(s: Seq<char>, i: int, j: int)
    requires
        0 <= i <= j <= s.len(),
        forall|k: int| i <= k < j ==> is_num_char(s[k]),
        j == s.len() || !is_num_char(s[j]),
    ensures
        num_end(s, i) == j,
    decreases j - i,
{
    if i < j {
        lemma_num_end_run(s, i + 1, j);
    }
}

/// Scans past the remainder of a nested value: depth counts the brackets and
/// braces opened and not yet closed, instr and esc track string state.
/// Returns the index just past the closer that brings depth back to zero.
pub open spec fn nested_end(s: Seq<char>, i: int, depth: int, instr: bool, esc: bool) -> Option<
    int,
>
    decreases s.len() - i,
{
    if i < 0 || i >= s.len() {
        None
    } else if instr {
        if esc {
            nested_end(s, i + 1, depth, true, false)
        } else if s[i] == '\\' {
            nested_end(s, i + 1, depth, true, true)
        } else if s[i] == '"' {
            nested_end(s, i + 1, depth, false, false)
        } else {
            nested_end(s, i + 1, depth, true, false)
        }
    } else if s[i] == '"' {
        nested_end(s, i + 1, depth, true, false)
    } else if s[i] == '{' || s[i] == '[' {
        nested_end(s, i + 1, depth + 1, false, false)
    } else if s[i] == '}' || s[i] == ']' {
        if depth <= 1 {
            Some(i + 1)
        } else {
            nested_end(s, i + 1, depth - 1, false, false)
        }
    } else {
        nested_end(s, i + 1, depth, false, false)
    }
}

pub proof fn lemma_nested_end_bounds(s: Seq<char>, i: int, depth: int, instr: bool, esc: bool)
    ensures
        nested_end(s, i, depth, instr, esc) matches Some(j) ==> i < j && j <= s.len(),
    decreases s.len() - i,
{
    if 0 <= i && i < s.len() {
        lemma_nested_end_bounds(s, i + 1, depth, true, false);
        lemma_nested_end_bounds(s, i + 1, depth, true, true);
        lemma_nested_end_bounds(s, i + 1, depth, false, false);
        lemma_nested_end_bounds(s, i + 1, depth + 1, false, false);
        lemma_nested_end_bounds(s, i + 1, depth - 1, false, false);
    }
}

pub open spec fn lit_true() -> Seq<char> {
    seq!['t', 'r', 'u', 'e']
}

pub open spec fn lit_false() -> Seq<char> {
    seq!['f', 'a', 'l', 's', 'e']
}

pub open spec fn lit_null() -> Seq<char> {
    seq!['n', 'u', 'l', 'l']
}

/// Index just past the JSON value that starts at index i, or None where no
/// value shape starts there. Nested structures are skipped opaquely.
pub open spec fn value_end(s: Seq<char>, i: int) -> Option<int> {
    if i < 0 || i >= s.len() {
        None
    } else if s[i] == '"' {
        str_end(s, i + 1)
    } else if s[i] == '{' || s[i] == '[' {
        nested_end(s, i + 1, 1, false, false)
    } else if s[i] == 't' {
        if i + 4 <= s.len() && s.subrange(i, i + 4) == lit_true() {
            Some(i + 4)
        } else {
            None
        }
    } else if s[i] == 'f' {
        if i + 5 <= s.len() && s.subrange(i, i + 5) == lit_false() {
            Some(i + 5)
        } else {
            None
        }
    } else if s[i] == 'n' {
        if i + 4 <= s.len() && s.subrange(i, i + 4) == lit_null() {
            Some(i + 4)
        } else {
            None
        }
    } else if is_num_char(s[i]) {
        Some(num_end(s, i))
    } else {
        None
    }
}

pub proof fn lemma_value_end_bounds(s: Seq<char>, i: int)
    ensures
        value_end(s, i) matches Some(j) ==> i < j && j <= s.len(),
{
    if 0 <= i && i < s.len() {
        lemma_str_end_bounds(s, i + 1);
        lemma_nested_end_bounds(s, i + 1, 1, false, false);
        if is_num_char(s[i]) {
            lemma_num_end_bounds(s, i + 1);
            assert(num_end(s, i) == num_end(s, i + 1));
        }
    }
}

// ---------------------------------------------------------------------------
// Object walk
// ---------------------------------------------------------------------------

pub open spec fn is_ws(c: char) -> bool {
    c == ' ' || c == '\t' || c == '\n' || c == '\r'
}

/// First index at or after i that does not hold whitespace.
pub open spec fn skip_ws(s: Seq<char>, i: int) -> int
    decreases s.len() - i,
{
    if 0 <= i && i < s.len() && is_ws(s[i]) {
        skip_ws(s, i + 1)
    } else {
        i
    }
}

pub proof fn lemma_skip_ws_bounds(s: Seq<char>, i: int)
    requires
        0 <= i <= s.len(),
    ensures
        i <= skip_ws(s, i) <= s.len(),
    decreases s.len() - i,
{
    if i < s.len() && is_ws(s[i]) {
        lemma_skip_ws_bounds(s, i + 1);
    }
}

/// Walks the members of an object from i — a position after the opening
/// brace or after a separating comma, whitespace allowed — to the matching
/// closing brace. Yields the map from each member's key (the raw text
/// between its quotes) to its raw value text, trimmed of the whitespace
/// around it; where a key repeats, the later member wins. The index
/// returned is just past the closing brace.
pub open spec fn walk_members(s: Seq<char>, i: int) -> Option<(Map<Seq<char>, Seq<char>>, int)>
    decreases s.len() - i,
{
    if i < 0 || i >= s.len() {
        None
    } else {
        let k0 = skip_ws(s, i);
        if k0 + 1 >= s.len() || s[k0] != '"' {
            None
        } else {
            match str_end(s, k0 + 1) {
                None => None,
                Some(kend) => {
                    let key = s.subrange(k0 + 1, kend - 1);
                    let c0 = skip_ws(s, kend);
                    if c0 >= s.len() || s[c0] != ':' {
                        None
                    } else {
                        let v0 = skip_ws(s, c0 + 1);
                        match value_end(s, v0) {
                            None => None,
                            Some(vend) => {
                                let val = s.subrange(v0, vend);
                                let e0 = skip_ws(s, vend);
                                if e0 < s.len() && s[e0] == ',' {
                                    proof {
                                        lemma_skip_ws_bounds(s, i);
                                        lemma_str_end_bounds(s, k0 + 1);
                                        lemma_skip_ws_bounds(s, kend);
                                        lemma_skip_ws_bounds(s, c0 + 1);
                                        lemma_value_end_bounds(s, v0);
                                        lemma_skip_ws_bounds(s, vend);
                                    }
                                    match walk_members(s, e0 + 1) {
                                        None => None,
                                        Some((m, end)) => Some(
                                            (
                                                if m.contains_key(key) {
                                                    m
                                                } else {
                                                    m.insert(key, val)
                                                },
                                                end,
                                            ),
                                        ),
                                    }
                                } else if e0 < s.len() && s[e0] == '}' {
                                    Some((Map::empty().insert(key, val), e0 + 1))
                                } else {
                                    None
                                }
                            },
                        }
                    }
                },
            }
        }
    }
}

/// Parses an object from the start of s (leading whitespace allowed), as
/// the map of its members and the index just past its closing brace.
pub open spec fn parse_object(s: Seq<char>) -> Option<(Map<Seq<char>, Seq<char>>, int)> {
    let b0 = skip_ws(s, 0);
    if b0 < s.len() && s[b0] == '{' {
        let m0 = skip_ws(s, b0 + 1);
        if m0 < s.len() && s[m0] == '}' {
            Some((Map::<Seq<char>, Seq<char>>::empty(), m0 + 1))
        } else {
            walk_members(s, b0 + 1)
        }
    } else {
        None
    }
}

// ---------------------------------------------------------------------------
// Executable scanners
// ---------------------------------------------------------------------------

pub open spec fn opt_index_eq(r: Option<usize>, v: Option<int>) -> bool {
    match (r, v) {
        (Some(a), Some(b)) => a as int == b,
        (None, None) => true,
        _ => false,
    }
}

pub fn str_end_x(s: &Vec<char>, i: usize) -> (r: Option<usize>)
    requires
        i <= s.len(),
    ensures
        opt_index_eq(r, str_end(s@, i as int)),
    decreases s@.len() - i,
{
    if i >= s.len() {
        None
    } else if s[i] == '"' {
        Some(i + 1)
    } else if s[i] == '\\' {
        if i + 1 < s.len() {
            str_end_x(s, i + 2)
        } else {
            None
        }
    } else {
        str_end_x(s, i + 1)
    }
}

pub fn num_end_x(s: &Vec<char>, i: usize) -> (r: usize)
    requires
        i <= s.len(),
    ensures
        r as int == num_end(s@, i as int),
        i <= r <= s.len(),
    decreases s@.len() - i,
{
    if i < s.len() && is_num_char_x(s[i]) {
        num_end_x(s, i + 1)
    } else {
        i
    }
}

pub fn nested_end_x(s: &Vec<char>, i: usize, depth: usize, instr: bool, esc: bool) -> (r: Option<
    usize,
>)
    requires
        i <= s.len(),
        depth <= i,
    ensures
        opt_index_eq(r, nested_end(s@, i as int, depth as int, instr, esc)),
    decreases s@.len() - i,
{
    if i >= s.len() {
        None
    } else if instr {
        if esc {
            nested_end_x(s, i + 1, depth, true, false)
        } else if s[i] == '\\' {
            nested_end_x(s, i + 1, depth, true, true)
        } else if s[i] == '"' {
            nested_end_x(s, i + 1, depth, false, false)
        } else {
            nested_end_x(s, i + 1, depth, true, false)
        }
    } else if s[i] == '"' {
        nested_end_x(s, i + 1, depth, true, false)
    } else if s[i] == '{' || s[i] == '[' {
        nested_end_x(s, i + 1, depth + 1, false, false)
    } else if s[i] == '}' || s[i] == ']' {
        if depth <= 1 {
            Some(i + 1)
        } else {
            nested_end_x(s, i + 1, depth - 1, false, false)
        }
    } else {
        nested_end_x(s, i + 1, depth, false, false)
    }
}

pub fn value_end_x(s: &Vec<char>, i: usize) -> (r: Option<usize>)
    requires
        i <= s.len(),
    ensures
        opt_index_eq(r, value_end(s@, i as int)),
{
    if i >= s.len() {
        None
    } else if s[i] == '"' {
        str_end_x(s, i + 1)
    } else if s[i] == '{' || s[i] == '[' {
        nested_end_x(s, i + 1, 1, false, false)
    } else if s[i] == 't' {
        if s.len() - i >= 4 && s[i + 1] == 'r' && s[i + 2] == 'u' && s[i + 3] == 'e' {
            proof {
                assert(s@.subrange(i as int, i + 4) =~= lit_true());
            }
            Some(i + 4)
        } else {
            proof {
                if s.len() - i >= 4 {
                    assert(s@.subrange(i as int, i + 4)[1] == s@[i + 1]);
                    assert(s@.subrange(i as int, i + 4)[2] == s@[i + 2]);
                    assert(s@.subrange(i as int, i + 4)[3] == s@[i + 3]);
                }
            }
            None
        }
    } else if s[i] == 'f' {
        if s.len() - i >= 5 && s[i + 1] == 'a' && s[i + 2] == 'l' && s[i + 3] == 's' && s[i + 4]
            == 'e' {
            proof {
                assert(s@.subrange(i as int, i + 5) =~= lit_false());
            }
            Some(i + 5)
        } else {
            proof {
                if s.len() - i >= 5 {
                    assert(s@.subrange(i as int, i + 5)[1] == s@[i + 1]);
                    assert(s@.subrange(i as int, i + 5)[2] == s@[i + 2]);
                    assert(s@.subrange(i as int, i + 5)[3] == s@[i + 3]);
                    assert(s@.subrange(i as int, i + 5)[4] == s@[i + 4]);
                }
            }
            None
        }
    } else if s[i] == 'n' {
        if s.len() - i >= 4 && s[i + 1] == 'u' && s[i + 2] == 'l' && s[i + 3] == 'l' {
            proof {
                assert(s@.subrange(i as int, i + 4) =~= lit_null());
            }
            Some(i + 4)
        } else {
            proof {
                if s.len() - i >= 4 {
                    assert(s@.subrange(i as int, i + 4)[1] == s@[i + 1]);
                    assert(s@.subrange(i as int, i + 4)[2] == s@[i + 2]);
                    assert(s@.subrange(i as int, i + 4)[3] == s@[i + 3]);
                }
            }
            None
        }
    } else if is_num_char_x(s[i]) {
        Some(num_end_x(s, i))
    } else {
        None
    }
}

pub fn is_ws_x(c: char) -> (r: bool)
    ensures
        r == is_ws(c),
{
    c == ' ' || c == '\t' || c == '\n' || c == '\r'
}

pub fn skip_ws_x(s: &Vec<char>, i: usize) -> (r: usize)
    requires
        i <= s.len(),
    ensures
        r as int == skip_ws(s@, i as int),
        i <= r <= s.len(),
    decreases s@.len() - i,
{
    if i < s.len() && is_ws_x(s[i]) {
        skip_ws_x(s, i + 1)
    } else {
        i
    }
}

/// The end of the member walk from i, without capturing any member: mirrors
/// walk_members on success and failure.
pub fn walk_end_x(s: &Vec<char>, i: usize) -> (r: Option<usize>)
    requires
        i <= s.len(),
    ensures
        match r {
            Some(j) => walk_members(s@, i as int) matches Some((m, end)) && end == j as int && j
                <= s.len(),
            None => walk_members(s@, i as int) is None,
        },
    decreases s@.len() - i,
{
    if i >= s.len() {
        return None;
    }
    let k0 = skip_ws_x(s, i);
    if k0 >= s.len() || s.len() - k0 < 2 || s[k0] != '"' {
        return None;
    }
    match str_end_x(s, k0 + 1) {
        None => None,
        Some(kend) => {
            proof {
                lemma_str_end_bounds(s@, k0 + 1);
            }
            let c0 = skip_ws_x(s, kend);
            if c0 >= s.len() || s[c0] != ':' {
                None
            } else {
                let v0 = skip_ws_x(s, c0 + 1);
                match value_end_x(s, v0) {
                    None => None,
                    Some(vend) => {
                        proof {
                            lemma_value_end_bounds(s@, v0 as int);
                        }
                        let e0 = skip_ws_x(s, vend);
                        if e0 < s.len() && s[e0] == ',' {
                            walk_end_x(s, e0 + 1)
                        } else if e0 < s.len() && s[e0] == '}' {
                            Some(e0 + 1)
                        } else {
                            None
                        }
                    },
                }
            }
        },
    }
}

/// The end of the object standing at the start of s: mirrors parse_object.
pub fn object_end(s: &Vec<char>) -> (r: Option<usize>)
    ensures
        match r {
            Some(j) => parse_object(s@) matches Some((m, end)) && end == j as int && j <= s.len(),
            None => parse_object(s@) is None,
        },
{
    let b0 = skip_ws_x(s, 0);
    if b0 < s.len() && s[b0] == '{' {
        let m0 = skip_ws_x(s, b0 + 1);
        if m0 < s.len() && s[m0] == '}' {
            Some(m0 + 1)
        } else {
            walk_end_x(s, b0 + 1)
        }
    } else {
        None
    }
}

// ---------------------------------------------------------------------------
// Capturing a member's raw value text
// ---------------------------------------------------------------------------

pub fn copy_range(s: &Vec<char>, a: usize, b: usize) -> (r: Vec<char>)
    requires
        a <= b <= s.len(),
    ensures
        r@ == s@.subrange(a as int, b as int),
{
    let mut r: Vec<char> = Vec::new();
    let mut j: usize = a;
    while j < b
        invariant
            a <= j <= b <= s.len(),
            r@ == s@.subrange(a as int, j as int),
        decreases b - j,
    {
        r.push(s[j]);
        proof {
            assert(s@.subrange(a as int, j + 1 as int) =~= s@.subrange(a as int, j as int).push(
                s@[j as int],
            ));
        }
        j = j + 1;
    }
    r
}

/// A copy of a character vector, text kept as it stands.
pub fn clone_chars(v: &Vec<char>) -> (r: Vec<char>)
    ensures
        r@ == v@,
{
    let r = copy_range(v, 0, v.len());
    proof {
        assert(v@.subrange(0, v@.len() as int) =~= v@);
    }
    r
}

/// Whether the text of s between a and b reads exactly as pat.
pub fn range_eq(s: &Vec<char>, a: usize, b: usize, pat: &Vec<char>) -> (r: bool)
    requires
        a <= b <= s.len(),
    ensures
        r == (s@.subrange(a as int, b as int) == pat@),
{
    if b - a != pat.len() {
        proof {
            assert(s@.subrange(a as int, b as int).len() != pat@.len());
        }
        return false;
    }
    let mut j: usize = 0;
    while j < pat.len()
        invariant
            b - a == pat.len(),
            a <= b <= s.len(),
            j <= pat.len(),
            forall|k: int| 0 <= k < j ==> s@[a + k] == pat@[k],
        decreases pat.len() - j,
    {
        if s[a + j] != pat[j] {
            proof {
                assert(s@.subrange(a as int, b as int)[j as int] == s@[a + j]);
            }
            return false;
        }
        j = j + 1;
    }
    proof {
        assert(s@.subrange(a as int, b as int) =~= pat@);
    }
    true
}

/// The raw text of the member named key, among the members walked from i.
/// Success and the text found agree with the walk's member map.
pub fn walk_find_x(s: &Vec<char>, i: usize, key: &Vec<char>) -> (r: Option<Vec<char>>)
    requires
        i <= s.len(),
        walk_members(s@, i as int) is Some,
    ensures
        ({
            let m = walk_members(s@, i as int).unwrap().0;
            match r {
                Some(v) => m.contains_key(key@) && m[key@] == v@,
                None => !m.contains_key(key@),
            }
        }),
    decreases s@.len() - i,
{
    let k0 = skip_ws_x(s, i);
    let kend = str_end_x(s, k0 + 1).unwrap();
    proof {
        lemma_str_end_bounds(s@, k0 + 1);
    }
    let c0 = skip_ws_x(s, kend);
    let v0 = skip_ws_x(s, c0 + 1);
    let vend = value_end_x(s, v0).unwrap();
    proof {
        lemma_value_end_bounds(s@, v0 as int);
    }
    let key_here = range_eq(s, k0 + 1, kend - 1, key);
    let e0 = skip_ws_x(s, vend);
    if e0 < s.len() && s[e0] == ',' {
        let rest = walk_find_x(s, e0 + 1, key);
        match rest {
            Some(v) => Some(v),
            None => {
                if key_here {
                    Some(copy_range(s, v0, vend))
                } else {
                    None
                }
            },
        }
    } else {
        if key_here {
            Some(copy_range(s, v0, vend))
        } else {
            None
        }
    }
}

/// The raw text of the member named key, where the whole of s parses as one
/// object: None exactly where the object has no such member.
pub fn find_field(s: &Vec<char>, key: &Vec<char>) -> (r: Option<Vec<char>>)
    requires
        parse_object(s@) is Some,
    ensures
        ({
            let m = parse_object(s@).unwrap().0;
            match r {
                Some(v) => m.contains_key(key@) && m[key@] == v@,
                None => !m.contains_key(key@),
            }
        }),
{
    let b0 = skip_ws_x(s, 0);
    let m0 = skip_ws_x(s, b0 + 1);
    if m0 < s.len() && s[m0] == '}' {
        None
    } else {
        walk_find_x(s, b0 + 1, key)
    }
}

} // verus!
