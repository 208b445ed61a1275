use vstd::prelude::*;
use vstd::slice::{slice_subrange, slice_to_vec};
use crate::text::AT;

verus! {

pub const LT: u8 = 60;
pub const GT: u8 = 62;

/// ASCII whitespace: space, tab, line feed, vertical tab, form feed, carriage return.
pub open spec fn is_space(b: u8) -> bool {
    b == 32 || (9 <= b && b <= 13)
}

/// ASCII punctuation other than `@`.
pub open spec fn is_punct(b: u8) -> bool {
    b != AT && ((33 <= b && b <= 47) || (58 <= b && b <= 64) || (91 <= b && b <= 96) || (123 <= b
        && b <= 126))
}

/// The bytes that a trim removes: whitespace when `space`, else punctuation.
pub open spec fn in_class(b: u8, space: bool) -> bool {
    if space {
        is_space(b)
    } else {
        is_punct(b)
    }
}

pub open spec fn trim_start(s: Seq<u8>, space: bool) -> Seq<u8>
    decreases s.len(),
{
    if s.len() > 0 && in_class(s[0], space) {
        trim_start(s.drop_first(), space)
    } else {
        s
    }
}

pub open spec fn trim_end(s: Seq<u8>, space: bool) -> Seq<u8>
    decreases s.len(),
{
    if s.len() > 0 && in_class(s.last(), space) {
        trim_end(s.drop_last(), space)
    } else {
        s
    }
}

/// `s` without the bytes of the class at either end.
pub open spec fn trim(s: Seq<u8>, space: bool) -> Seq<u8> {
    trim_end(trim_start(s, space), space)
}

/// The first index at or after `i` that holds `b`, or the length when there is none.
pub open spec fn find_from(s: Seq<u8>, b: u8, i: int) -> int
    decreases s.len() - i,
{
    if i < 0 || i >= s.len() {
        s.len() as int
    } else if s[i] == b {
        i
    } else {
        find_from(s, b, i + 1)
    }
}

/// A search from `i` ends between `i` and the length.
pub proof fn lemma_find_from_bounds(s: Seq<u8>, b: u8, i: int)
    requires
        0 <= i <= s.len(),
    ensures
        i <= find_from(s, b, i) <= s.len(),
    decreases s.len() - i,
{
    if i < s.len() && s[i] != b {
        lemma_find_from_bounds(s, b, i + 1);
    }
}

/// The text between the first `<` and the first `>` after it, trimmed of
/// whitespace; none without such a pair.
pub open spec fn angle_addr(v: Seq<u8>) -> Option<Seq<u8>> {
    let o = find_from(v, LT, 0);
    let c = find_from(v, GT, o + 1);
    if o < v.len() && c < v.len() {
        Some(trim(v.subrange(o + 1, c), true))
    } else {
        None
    }
}

/// The first whitespace-delimited token that holds an `@`, trimmed of
/// punctuation, scanning from `i`; the current token began at `ts`.
pub open spec fn token_addr(v: Seq<u8>, ts: int, i: int) -> Option<Seq<u8>>
    decreases v.len() - i,
{
    if i >= v.len() || is_space(v[i]) {
        if v.subrange(ts, i).contains(AT) {
            Some(trim(v.subrange(ts, i), false))
        } else if i >= v.len() {
            None
        } else {
            token_addr(v, i + 1, i + 1)
        }
    } else {
        token_addr(v, ts, i + 1)
    }
}

/// The address in the value of a sender header: in angle brackets if there
/// is such a pair, else the first token with an `@`.
pub open spec fn address_of(v: Seq<u8>) -> Option<Seq<u8>> {
    match angle_addr(v) {
        Some(a) => Some(a),
        None => token_addr(v, 0, 0),
    }
}

pub open spec fn lower(b: u8) -> u8 {
    if 65 <= b && b <= 90 {
        (b + 32) as u8
    } else {
        b
    }
}

/// The line starts with `From:`, in any case.
pub open spec fn is_from_header(l: Seq<u8>) -> bool {
    &&& l.len() >= 5
    &&& lower(l[0]) == 102
    &&& lower(l[1]) == 114
    &&& lower(l[2]) == 111
    &&& lower(l[3]) == 109
    &&& l[4] == 58
}

/// The address of the first sender header at or after line `i`.
pub open spec fn first_sender(lines: Seq<Seq<u8>>, i: int) -> Option<Seq<u8>>
    decreases lines.len() - i,
{
    if i < 0 || i >= lines.len() {
        None
    } else if is_from_header(lines[i]) {
        address_of(lines[i].subrange(5, lines[i].len() as int))
    } else {
        first_sender(lines, i + 1)
    }
}

/// The sender of a message: the address of its first sender header.
pub open spec fn sender_of(lines: Seq<Seq<u8>>) -> Option<Seq<u8>> {
    first_sender(lines, 0)
}

pub open spec fn opt_view(o: Option<Vec<u8>>) -> Option<Seq<u8>> {
    match o {
        Some(v) => Some(v@),
        None => None,
    }
}

fn in_class_byte(b: u8, space: bool) -> (r: bool)
    ensures
        r == in_class(b, space),
{
    if space {
        b == 32 || (9 <= b && b <= 13)
    } else {
        b != AT && ((33 <= b && b <= 47) || (58 <= b && b <= 64) || (91 <= b && b <= 96) || (123
            <= b && b <= 126))
    }
}

/// A copy of `s[lo..hi]` without the bytes of the class at either end.
pub fn trim_range(s: &[u8], lo: usize, hi: usize, space: bool) -> (r: Vec<u8>)
    requires
        lo <= hi <= s@.len(),
    ensures
        r@ == trim(s@.subrange(lo as int, hi as int), space),
{
    let mut a: usize = lo;
    while a < hi && in_class_byte(s[a], space)
        invariant
            lo <= a <= hi <= s@.len(),
            trim_start(s@.subrange(lo as int, hi as int), space) == trim_start(
                s@.subrange(a as int, hi as int),
                space,
            ),
        decreases hi - a,
    {
        assert(s@.subrange(a as int, hi as int).drop_first() =~= s@.subrange(a + 1, hi as int));
        a = a + 1;
    }
    let mut b: usize = hi;
    while b > a && in_class_byte(s[b - 1], space)
        invariant
            lo <= a <= b <= hi <= s@.len(),
            trim_end(s@.subrange(a as int, hi as int), space) == trim_end(
                s@.subrange(a as int, b as int),
                space,
            ),
        decreases b,
    {
        assert(s@.subrange(a as int, b as int).drop_last() =~= s@.subrange(a as int, b - 1));
        b = b - 1;
    }
    slice_to_vec(slice_subrange(s, a, b))
}

/// The first index at or after `start` that holds `b`, or the length.
pub fn find_byte(s: &[u8], b: u8, start: usize) -> (r: usize)
    requires
        start <= s@.len(),
    ensures
        r == find_from(s@, b, start as int),
{
    let mut i: usize = start;
    while i < s.len() && s[i] != b
        invariant
            start <= i <= s@.len(),
            find_from(s@, b, start as int) == find_from(s@, b, i as int),
        decreases s@.len() - i,
    {
        i = i + 1;
    }
    i
}

/// The address in a sender header's value.
pub fn header_address(v: &[u8]) -> (r: Option<Vec<u8>>)
    ensures
        opt_view(r) == address_of(v@),
{
    let n = v.len();
    let o = find_byte(v, LT, 0);
    if o < n {
        let c = find_byte(v, GT, o + 1);
        proof {
            lemma_find_from_bounds(v@, GT, o + 1);
        }
        if c < n {
            return Some(trim_range(v, o + 1, c, true));
        }
    }
    let mut ts: usize = 0;
    let mut i: usize = 0;
    let mut has_at = false;
    while i < n
        invariant
            n == v@.len(),
            ts <= i <= n,
            has_at == v@.subrange(ts as int, i as int).contains(AT),
            address_of(v@) == token_addr(v@, ts as int, i as int),
        decreases n - i,
    {
        let ghost t = v@.subrange(ts as int, i as int);
        if in_class_byte(v[i], true) {
            if has_at {
                return Some(trim_range(v, ts, i, false));
            }
            i = i + 1;
            ts = i;
            has_at = false;
            assert(!v@.subrange(ts as int, i as int).contains(AT));
        } else {
            proof {
                assert(v@.subrange(ts as int, i + 1) =~= t.push(v@[i as int]));
                vstd::seq_lib::lemma_seq_contains_after_push(t, v@[i as int], AT);
            }
            if v[i] == AT {
                has_at = true;
            }
            i = i + 1;
        }
    }
    if has_at {
        Some(trim_range(v, ts, n, false))
    } else {
        None
    }
}

fn lower_byte(b: u8) -> (r: u8)
    ensures
        r == lower(b),
{
    if 65 <= b && b <= 90 {
        b + 32
    } else {
        b
    }
}

/// Whether the line starts with `From:`, in any case.
pub fn is_from_line(l: &[u8]) -> (r: bool)
    ensures
        r == is_from_header(l@),
{
    l.len() >= 5 && lower_byte(l[0]) == 102 && lower_byte(l[1]) == 114 && lower_byte(l[2]) == 111
        && lower_byte(l[3]) == 109 && l[4] == 58
}

/// The sender of the buffered lines: the address of the first `From:` header,
/// if that header has one.
pub fn extract_sender(lines: &Vec<Vec<u8>>) -> (r: Option<Vec<u8>>)
    ensures
        opt_view(r) == sender_of(lines@.map_values(|l: Vec<u8>| l@)),
{
    let ghost ls = lines@.map_values(|l: Vec<u8>| l@);
    let mut i: usize = 0;
    while i < lines.len()
        invariant
            i <= lines@.len(),
            ls == lines@.map_values(|l: Vec<u8>| l@),
            sender_of(ls) == first_sender(ls, i as int),
        decreases lines@.len() - i,
    {
        let l = lines[i].as_slice();
        assert(ls[i as int] == l@);
        if is_from_line(l) {
            let v = slice_subrange(l, 5, l.len());
            return header_address(v);
        }
        i = i + 1;
    }
    None
}

} // verus!
