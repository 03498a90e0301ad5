//! The cookie-header grammar the request guard reads.
//!
//! A header is a list of segments separated by `;`. Each segment, once
//! stripped of surrounding spaces, is `name=value`, the name before the
//! first `=` and the value everything after it; a segment without `=` names
//! no cookie. A header byte outside the visible ASCII range makes the whole
//! header malformed.
use vstd::prelude::*;
use vstd::slice::{slice_subrange, slice_to_vec};
use crate::ct_eq;

verus! {

/// Space, the byte stripped from segment ends.
pub const SPACE: u8 = 32;

/// The separator between cookie segments.
pub const SEMICOLON: u8 = 59;

/// The separator between a cookie's name and its value.
pub const EQUALS: u8 = 61;

/// A byte a well-formed cookie header may carry: visible ASCII or space.
pub open spec fn is_cookie_byte(b: u8) -> bool {
    32 <= b <= 126
}

/// A header is well formed when every byte of it is visible ASCII.
pub open spec fn header_bytes_ok(h: Seq<u8>) -> bool {
    forall|i: int| 0 <= i < h.len() ==> is_cookie_byte(#[trigger] h[i])
}

/// Index of the first occurrence of `b` in `s`, or `s.len()` if absent.
pub open spec fn find_byte(s: Seq<u8>, b: u8) -> nat
    decreases s.len(),
{
    if s.len() == 0 {
        0
    } else if s[0] == b {
        0
    } else {
        1 + find_byte(s.drop_first(), b)
    }
}

/// `find_byte` returns the least index holding `b`, or the length.
pub proof fn lemma_find_byte(s: Seq<u8>, b: u8)
    ensures
        find_byte(s, b) <= s.len(),
        forall|i: int| 0 <= i < find_byte(s, b) ==> s[i] != b,
        find_byte(s, b) < s.len() ==> s[find_byte(s, b) as int] == b,
    decreases s.len(),
{
    if s.len() > 0 && s[0] != b {
        lemma_find_byte(s.drop_first(), b);
        assert forall|i: int| 0 <= i < find_byte(s, b) implies s[i] != b by {
            if i > 0 {
                assert(s.drop_first()[i - 1] == s[i]);
            }
        }
        if find_byte(s, b) < s.len() {
            assert(s.drop_first()[find_byte(s.drop_first(), b) as int] == s[find_byte(
                s,
                b,
            ) as int]);
        }
    }
}

/// The sequence with its leading spaces removed.
pub open spec fn trim_front(s: Seq<u8>) -> Seq<u8>
    decreases s.len(),
{
    if s.len() > 0 && s[0] == SPACE {
        trim_front(s.drop_first())
    } else {
        s
    }
}

/// The sequence with its trailing spaces removed.
pub open spec fn trim_back(s: Seq<u8>) -> Seq<u8>
    decreases s.len(),
{
    if s.len() > 0 && s[s.len() - 1] == SPACE {
        trim_back(s.drop_last())
    } else {
        s
    }
}

/// The sequence with spaces removed from both ends.
pub open spec fn trim(s: Seq<u8>) -> Seq<u8> {
    trim_back(trim_front(s))
}

proof fn lemma_trim_front_at(s: Seq<u8>, lo: int)
    requires
        0 <= lo <= s.len(),
        forall|i: int| 0 <= i < lo ==> s[i] == SPACE,
        lo == s.len() || s[lo] != SPACE,
    ensures
        trim_front(s) == s.subrange(lo, s.len() as int),
    decreases lo,
{
    if lo == 0 {
        assert(s.subrange(0, s.len() as int) =~= s);
    } else {
        lemma_trim_front_at(s.drop_first(), lo - 1);
        assert(s.drop_first().subrange(lo - 1, s.len() - 1) =~= s.subrange(lo, s.len() as int));
    }
}

proof fn lemma_trim_back_at(s: Seq<u8>, hi: int)
    requires
        0 <= hi <= s.len(),
        forall|i: int| hi <= i < s.len() ==> s[i] == SPACE,
        hi == 0 || s[hi - 1] != SPACE,
    ensures
        trim_back(s) == s.subrange(0, hi),
    decreases s.len() - hi,
{
    if hi == s.len() {
        assert(s.subrange(0, hi) =~= s);
    } else {
        lemma_trim_back_at(s.drop_last(), hi);
        assert(s.drop_last().subrange(0, hi) =~= s.subrange(0, hi));
    }
}

/// Where the scan indices land, there the trimmed sequence lies.
proof fn lemma_trim_is_subrange(s: Seq<u8>, lo: int, hi: int)
    requires
        0 <= lo <= hi <= s.len(),
        forall|i: int| 0 <= i < lo ==> s[i] == SPACE,
        forall|i: int| hi <= i < s.len() ==> s[i] == SPACE,
        lo == s.len() || s[lo] != SPACE,
        hi == lo || s[hi - 1] != SPACE,
    ensures
        trim(s) == s.subrange(lo, hi),
{
    lemma_trim_front_at(s, lo);
    let f = s.subrange(lo, s.len() as int);
    lemma_trim_back_at(f, hi - lo);
    assert(f.subrange(0, hi - lo) =~= s.subrange(lo, hi));
}

/// The value a segment assigns to `name`: the part after the first `=` of
/// the trimmed segment, provided the part before it is exactly `name`.
pub open spec fn segment_value(seg: Seq<u8>, name: Seq<u8>) -> Option<Seq<u8>> {
    let t = trim(seg);
    let eq = find_byte(t, EQUALS);
    if eq < t.len() && t.subrange(0, eq as int) == name {
        Some(t.subrange(eq as int + 1, t.len() as int))
    } else {
        None
    }
}

/// The value of the first segment of `h` that assigns one to `name`.
pub open spec fn spec_find_cookie(h: Seq<u8>, name: Seq<u8>) -> Option<Seq<u8>>
    decreases h.len(),
{
    let k = find_byte(h, SEMICOLON);
    match segment_value(h.subrange(0, k as int), name) {
        Some(v) => Some(v),
        None => if k < h.len() {
            spec_find_cookie(h.subrange(k as int + 1, h.len() as int), name)
        } else {
            None
        },
    }
}

/// Setting a cookie and reading it back: a header that is exactly
/// `name=value` yields that value, provided the name carries no space,
/// separator or `=`, and the value no space or separator — which holds of
/// the reserved session-cookie name and of any base64 text.
pub proof fn lemma_cookie_round_trip(name: Seq<u8>, v: Seq<u8>)
    requires
        name.len() > 0,
        forall|i: int|
            0 <= i < name.len() ==> #[trigger] name[i] != SEMICOLON && name[i] != EQUALS
                && name[i] != SPACE,
        forall|i: int| 0 <= i < v.len() ==> #[trigger] v[i] != SEMICOLON && v[i] != SPACE,
    ensures
        spec_find_cookie(name + seq![EQUALS] + v, name) == Some(v),
{
    let h = name + seq![EQUALS] + v;
    lemma_find_byte(h, SEMICOLON);
    let k = find_byte(h, SEMICOLON);
    assert(k == h.len()) by {
        if k < h.len() {
            assert(h[k as int] == SEMICOLON);
        }
    }
    let seg = h.subrange(0, k as int);
    assert(seg =~= h);
    lemma_trim_is_subrange(h, 0, h.len() as int);
    assert(trim(h) =~= h) by {
        assert(h.subrange(0, h.len() as int) =~= h);
    }
    lemma_find_byte(h, EQUALS);
    let eq = find_byte(h, EQUALS);
    assert(eq == name.len()) by {
        assert(h[name.len() as int] == EQUALS);
        if eq < name.len() {
            assert(h[eq as int] == name[eq as int]);
        }
        if eq > name.len() {
            assert(h[name.len() as int] != EQUALS);
        }
    }
    assert(h.subrange(0, eq as int) =~= name);
    assert(h.subrange(eq as int + 1, h.len() as int) =~= v);
    assert(segment_value(seg, name) == Some(v));
}

/// Check that every byte of the header is one a cookie header may carry.
pub fn header_ok(header: &[u8]) -> (r: bool)
    ensures
        r == header_bytes_ok(header@),
{
    let n = header.len();
    let mut i: usize = 0;
    while i < n
        invariant
            n == header@.len(),
            0 <= i <= n,
            forall|j: int| 0 <= j < i ==> is_cookie_byte(#[trigger] header@[j]),
        decreases n - i,
    {
        let b = header[i];
        if b < 32 || b > 126 {
            return false;
        }
        i = i + 1;
    }
    true
}

/// Scan one segment for `name`; mirror of `segment_value`.
fn segment_matches(seg: &[u8], name: &[u8]) -> (r: Option<Vec<u8>>)
    ensures
        match r {
            Some(v) => segment_value(seg@, name@) == Some(v@),
            None => segment_value(seg@, name@) is None,
        },
{
    let n = seg.len();
    let mut lo: usize = 0;
    while lo < n && seg[lo] == SPACE
        invariant
            n == seg@.len(),
            0 <= lo <= n,
            forall|i: int| 0 <= i < lo ==> seg@[i] == SPACE,
        decreases n - lo,
    {
        lo = lo + 1;
    }
    let mut hi: usize = n;
    while hi > lo && seg[hi - 1] == SPACE
        invariant
            n == seg@.len(),
            lo <= hi <= n,
            forall|i: int| hi <= i < n ==> seg@[i] == SPACE,
        decreases hi,
    {
        hi = hi - 1;
    }
    proof {
        lemma_trim_is_subrange(seg@, lo as int, hi as int);
    }
    let t = slice_subrange(seg, lo, hi);
    let tl = t.len();
    let mut eq: usize = 0;
    while eq < tl && t[eq] != EQUALS
        invariant
            tl == t@.len(),
            0 <= eq <= tl,
            forall|i: int| 0 <= i < eq ==> t@[i] != EQUALS,
        decreases tl - eq,
    {
        eq = eq + 1;
    }
    proof {
        lemma_find_byte(t@, EQUALS);
        assert(find_byte(t@, EQUALS) == eq);
    }
    if eq == tl {
        return None;
    }
    let name_part = slice_subrange(t, 0, eq);
    if ct_eq(name_part, name) {
        let value = slice_subrange(t, eq + 1, tl);
        Some(slice_to_vec(value))
    } else {
        None
    }
}

/// Find the cookie called `name` in a header; mirror of `spec_find_cookie`.
pub fn find_cookie(header: &[u8], name: &[u8]) -> (r: Option<Vec<u8>>)
    ensures
        match r {
            Some(v) => spec_find_cookie(header@, name@) == Some(v@),
            None => spec_find_cookie(header@, name@) is None,
        },
{
    let mut rest: &[u8] = header;
    loop
        invariant
            spec_find_cookie(header@, name@) == spec_find_cookie(rest@, name@),
        decreases rest@.len(),
    {
        let n = rest.len();
        let mut k: usize = 0;
        while k < n && rest[k] != SEMICOLON
            invariant
                n == rest@.len(),
                0 <= k <= n,
                forall|i: int| 0 <= i < k ==> rest@[i] != SEMICOLON,
            decreases n - k,
        {
            k = k + 1;
        }
        proof {
            lemma_find_byte(rest@, SEMICOLON);
            assert(find_byte(rest@, SEMICOLON) == k);
        }
        let seg = slice_subrange(rest, 0, k);
        match segment_matches(seg, name) {
            Some(v) => {
                return Some(v);
            },
            None => {
                if k == n {
                    return None;
                }
                let next = slice_subrange(rest, k + 1, n);
                rest = next;
            },
        }
    }
}

} // verus!
