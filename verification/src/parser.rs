//! Pure parsing of raw hardware-identifier strings.
//!
//! A hardware identifier such as `USB\VID_1234&PID_5678\7&1A2B3C4D&0&1`
//! encodes a 16-bit vendor ID after a `VID_` marker, a 16-bit product
//! ID after a `PID_` marker (each four hexadecimal digits,
//! case-insensitive, in either order), and a serial-like suffix after
//! the last backslash. Everything here is total over arbitrary input:
//! malformed identifiers yield a typed failure or an empty result,
//! never a panic.

use vstd::prelude::*;
use vstd::string::StrSliceExecFns;
use crate::device::ParseError;

verus! {

/// Whether `c` is a hexadecimal digit, upper or lower case.
pub open spec fn is_hex_digit(c: char) -> bool {
    ||| ('0' as u32) <= (c as u32) && (c as u32) <= ('9' as u32)
    ||| ('a' as u32) <= (c as u32) && (c as u32) <= ('f' as u32)
    ||| ('A' as u32) <= (c as u32) && (c as u32) <= ('F' as u32)
}

/// The numeric value of a hexadecimal digit.
pub open spec fn hex_digit_value(c: char) -> u16 {
    if ('0' as u32) <= (c as u32) && (c as u32) <= ('9' as u32) {
        ((c as u32) - ('0' as u32)) as u16
    } else if ('a' as u32) <= (c as u32) && (c as u32) <= ('f' as u32) {
        ((c as u32) - ('a' as u32) + 10) as u16
    } else {
        ((c as u32) - ('A' as u32) + 10) as u16
    }
}

/// Whether a four-character marker `xID_` stands at position `i` of
/// `s`, where the leading letter is `up` or `lo` (`V`/`v` for the
/// vendor marker, `P`/`p` for the product marker) and the remaining
/// characters are `I`, `D` and `_`, letters case-insensitive.
pub open spec fn marker_at(s: Seq<char>, i: int, up: char, lo: char) -> bool {
    &&& 0 <= i
    &&& i + 4 <= s.len()
    &&& (s[i] == up || s[i] == lo)
    &&& (s[i + 1] == 'I' || s[i + 1] == 'i')
    &&& (s[i + 2] == 'D' || s[i + 2] == 'd')
    &&& s[i + 3] == '_'
}

/// The position of the first marker at or after `i`, if any.
pub open spec fn find_marker_from(s: Seq<char>, i: int, up: char, lo: char) -> Option<int>
    decreases s.len() - i,
{
    if i + 4 > s.len() {
        None
    } else if marker_at(s, i, up, lo) {
        Some(i)
    } else {
        find_marker_from(s, i + 1, up, lo)
    }
}

/// The position of the first vendor-ID marker of `s`.
pub open spec fn spec_find_vid(s: Seq<char>) -> Option<int> {
    find_marker_from(s, 0, 'V', 'v')
}

/// The position of the first product-ID marker of `s`.
pub open spec fn spec_find_pid(s: Seq<char>) -> Option<int> {
    find_marker_from(s, 0, 'P', 'p')
}

/// The value of the four hexadecimal digits of `s` starting at `i`;
/// `None` when they run past the end of `s` or any is not a
/// hexadecimal digit.
pub open spec fn hex4_at(s: Seq<char>, i: int) -> Option<u16> {
    if 0 <= i && i + 4 <= s.len() && is_hex_digit(s[i]) && is_hex_digit(s[i + 1])
        && is_hex_digit(s[i + 2]) && is_hex_digit(s[i + 3]) {
        Some(
            (hex_digit_value(s[i]) * 0x1000 + hex_digit_value(s[i + 1]) * 0x100 + hex_digit_value(
                s[i + 2],
            ) * 0x10 + hex_digit_value(s[i + 3])) as u16,
        )
    } else {
        None
    }
}

/// What vendor/product extraction returns on `s`: the values of the
/// four hexadecimal digits after the first vendor-ID marker and after
/// the first product-ID marker, or `None` when either marker is
/// missing or not followed by four hexadecimal digits.
pub open spec fn spec_extract_vid_pid(s: Seq<char>) -> Option<(u16, u16)> {
    match (spec_find_vid(s), spec_find_pid(s)) {
        (Some(vi), Some(pi)) => match (hex4_at(s, vi + 4), hex4_at(s, pi + 4)) {
            (Some(v), Some(p)) => Some((v, p)),
            _ => None,
        },
        _ => None,
    }
}

/// The position of the last occurrence of `c` in `s`, if any.
pub open spec fn spec_find_last(s: Seq<char>, c: char) -> Option<int>
    decreases s.len(),
{
    if s.len() == 0 {
        None
    } else if s[s.len() - 1] == c {
        Some(s.len() - 1)
    } else {
        spec_find_last(s.drop_last(), c)
    }
}

/// What serial extraction returns on `s`: the segment after the last
/// backslash, or `None` when `s` contains no backslash. A
/// single-segment identifier is treated as having no distinguishable
/// serial.
pub open spec fn spec_extract_serial(s: Seq<char>) -> Option<Seq<char>> {
    match spec_find_last(s, '\\') {
        Some(i) => Some(s.subrange(i + 1, s.len() as int)),
        None => None,
    }
}

/// The segment of `s` after the last occurrence of `c`, or all of `s`
/// when `c` does not occur.
pub open spec fn spec_last_segment(s: Seq<char>, c: char) -> Seq<char> {
    match spec_find_last(s, c) {
        Some(i) => s.subrange(i + 1, s.len() as int),
        None => s,
    }
}

/// `s` with every trailing NUL character removed.
pub open spec fn spec_trim_nuls(s: Seq<char>) -> Seq<char>
    decreases s.len(),
{
    if s.len() == 0 {
        s
    } else if s[s.len() - 1] == '\u{0}' {
        spec_trim_nuls(s.drop_last())
    } else {
        s
    }
}

/// The numeric value of one hexadecimal digit, or `None`.
fn hex_value(c: char) -> (r: Option<u16>)
    ensures
        r is Some <==> is_hex_digit(c),
        r is Some ==> r->0 == hex_digit_value(c) && r->0 < 16,
{
    let u = c as u32;
    if ('0' as u32) <= u && u <= ('9' as u32) {
        Some((u - ('0' as u32)) as u16)
    } else if ('a' as u32) <= u && u <= ('f' as u32) {
        Some((u - ('a' as u32) + 10) as u16)
    } else if ('A' as u32) <= u && u <= ('F' as u32) {
        Some((u - ('A' as u32) + 10) as u16)
    } else {
        None
    }
}

/// The position of the first `xID_` marker of `s` whose leading letter
/// is `up` or `lo`.
fn find_marker(s: &str, up: char, lo: char) -> (r: Option<usize>)
    ensures
        r is Some <==> find_marker_from(s@, 0, up, lo) is Some,
        r is Some ==> find_marker_from(s@, 0, up, lo) == Some(r->0 as int),
        r is Some ==> marker_at(s@, r->0 as int, up, lo) && r->0 + 4 <= usize::MAX,
{
    let n = s.unicode_len();
    if n < 4 {
        return None;
    }
    let mut i: usize = 0;
    while i <= n - 4
        invariant
            n == s@.len(),
            4 <= n,
            i <= n,
            find_marker_from(s@, 0, up, lo) == find_marker_from(s@, i as int, up, lo),
        decreases n - i,
    {
        let c0 = s.get_char(i);
        let c1 = s.get_char(i + 1);
        let c2 = s.get_char(i + 2);
        let c3 = s.get_char(i + 3);
        if (c0 == up || c0 == lo) && (c1 == 'I' || c1 == 'i') && (c2 == 'D' || c2 == 'd') && c3
            == '_' {
            assert(marker_at(s@, i as int, up, lo));
            return Some(i);
        }
        assert(!marker_at(s@, i as int, up, lo));
        i += 1;
    }
    assert(find_marker_from(s@, i as int, up, lo) is None);
    None
}

/// The value of the four hexadecimal digits of `s` starting at `i`.
fn parse_hex4(s: &str, i: usize) -> (r: Option<u16>)
    ensures
        r == hex4_at(s@, i as int),
{
    let n = s.unicode_len();
    if n < 4 || i > n - 4 {
        return None;
    }
    let d0 = hex_value(s.get_char(i));
    let d1 = hex_value(s.get_char(i + 1));
    let d2 = hex_value(s.get_char(i + 2));
    let d3 = hex_value(s.get_char(i + 3));
    match (d0, d1, d2, d3) {
        (Some(a), Some(b), Some(c), Some(d)) => Some(a * 0x1000 + b * 0x100 + c * 0x10 + d),
        _ => None,
    }
}

/// Extracts the 16-bit vendor and product IDs of a hardware
/// identifier: the four hexadecimal digits after the first `VID_` and
/// the first `PID_` marker (markers and digits case-insensitive, in
/// either order). Fails when either marker is absent or not followed
/// by four hexadecimal digits, also when they would run past the end
/// of the identifier.
pub fn extract_vid_pid(hardware_id: &str) -> (r: Result<(u16, u16), ParseError>)
    ensures
        r is Ok <==> spec_extract_vid_pid(hardware_id@) is Some,
        r is Ok ==> Some(r->Ok_0) == spec_extract_vid_pid(hardware_id@),
{
    let vi = match find_marker(hardware_id, 'V', 'v') {
        Some(i) => i,
        None => {
            return Err(ParseError);
        },
    };
    let pi = match find_marker(hardware_id, 'P', 'p') {
        Some(i) => i,
        None => {
            return Err(ParseError);
        },
    };
    let v = match parse_hex4(hardware_id, vi + 4) {
        Some(v) => v,
        None => {
            return Err(ParseError);
        },
    };
    let p = match parse_hex4(hardware_id, pi + 4) {
        Some(p) => p,
        None => {
            return Err(ParseError);
        },
    };
    Ok((v, p))
}

/// The position of the last occurrence of `c` in `s`.
fn find_last_char(s: &str, c: char) -> (r: Option<usize>)
    ensures
        r is Some <==> spec_find_last(s@, c) is Some,
        r is Some ==> spec_find_last(s@, c) == Some(r->0 as int),
{
    let n = s.unicode_len();
    proof {
        assert(s@.take(n as int) =~= s@);
    }
    let mut i: usize = n;
    while i > 0
        invariant
            n == s@.len(),
            i <= n,
            spec_find_last(s@, c) == spec_find_last(s@.take(i as int), c),
        decreases i,
    {
        let ch = s.get_char(i - 1);
        if ch == c {
            proof {
                assert(s@.take(i as int)[i - 1] == c);
                assert(spec_find_last(s@.take(i as int), c) == Some(i as int - 1));
            }
            return Some(i - 1);
        }
        proof {
            assert(s@.take(i as int)[i - 1] != c);
            assert(s@.take(i as int).drop_last() =~= s@.take(i as int - 1));
        }
        i -= 1;
    }
    assert(spec_find_last(s@.take(0), c) is None);
    None
}

/// Derives the serial number of a hardware identifier: the segment
/// after the last backslash, verbatim. An identifier with no
/// backslash has no distinguishable trailing segment and yields
/// `None`, never the whole identifier standing in for a serial.
pub fn extract_serial_number(hardware_id: &str) -> (r: Option<String>)
    ensures
        r is Some <==> spec_extract_serial(hardware_id@) is Some,
        r is Some ==> Some(r->0@) == spec_extract_serial(hardware_id@),
{
    match find_last_char(hardware_id, '\\') {
        Some(i) => {
            proof {
                lemma_find_last_props(hardware_id@, '\\');
            }
            let n = hardware_id.unicode_len();
            let seg = hardware_id.substring_char(i + 1, n);
            Some(seg.to_owned())
        },
        None => None,
    }
}

/// The part of a registry property string after its last semicolon,
/// or the whole string when it has none: the last of its
/// semicolon-separated segments.
pub fn last_semicolon_segment(s: &str) -> (r: String)
    ensures
        r@ == spec_last_segment(s@, ';'),
{
    match find_last_char(s, ';') {
        Some(i) => {
            proof {
                lemma_find_last_props(s@, ';');
            }
            let n = s.unicode_len();
            s.substring_char(i + 1, n).to_owned()
        },
        None => s.to_owned(),
    }
}

/// Removes the trailing NUL characters a fixed-size property buffer
/// leaves behind its payload.
pub fn trim_trailing_nuls(s: &str) -> (r: String)
    ensures
        r@ == spec_trim_nuls(s@),
{
    let n = s.unicode_len();
    proof {
        assert(s@.take(n as int) =~= s@);
    }
    let mut i: usize = n;
    while i > 0 && s.get_char(i - 1) == '\u{0}'
        invariant
            n == s@.len(),
            i <= n,
            spec_trim_nuls(s@) == spec_trim_nuls(s@.take(i as int)),
        decreases i,
    {
        proof {
            assert(s@.take(i as int)[i - 1] == '\u{0}');
            assert(s@.take(i as int).drop_last() =~= s@.take(i as int - 1));
        }
        i -= 1;
    }
    proof {
        if i > 0 {
            assert(s@.take(i as int)[i - 1] != '\u{0}');
        }
        assert(spec_trim_nuls(s@.take(i as int)) == s@.take(i as int));
    }
    s.substring_char(0, i).to_owned()
}

/// Where the last occurrence of `c` lies: within `s`, at a character
/// equal to `c`, with no later occurrence; when there is none, no
/// character of `s` equals `c`.
pub proof fn lemma_find_last_props(s: Seq<char>, c: char)
    ensures
        spec_find_last(s, c) is Some ==> {
            let i = spec_find_last(s, c)->0;
            &&& 0 <= i < s.len()
            &&& s[i] == c
            &&& forall|j: int| i < j < s.len() ==> s[j] != c
        },
        spec_find_last(s, c) is None ==> forall|j: int| 0 <= j < s.len() ==> s[j] != c,
    decreases s.len(),
{
    if s.len() == 0 {
    } else if s[s.len() - 1] == c {
    } else {
        lemma_find_last_props(s.drop_last(), c);
        assert forall|j: int| 0 <= j < s.len() - 1 implies s.drop_last()[j] == s[j] by {}
    }
}

/// A found marker position is a marker: `find_marker_from` returns
/// only positions where the marker stands.
pub proof fn lemma_find_marker_is_marker(s: Seq<char>, i: int, up: char, lo: char)
    requires
        find_marker_from(s, i, up, lo) is Some,
    ensures
        marker_at(s, find_marker_from(s, i, up, lo)->0, up, lo),
    decreases s.len() - i,
{
    if i + 4 > s.len() {
    } else if marker_at(s, i, up, lo) {
    } else {
        lemma_find_marker_is_marker(s, i + 1, up, lo);
    }
}

/// A marker with no earlier marker is the one `find_marker_from`
/// finds.
pub proof fn lemma_find_marker_first(s: Seq<char>, i: int, j: int, up: char, lo: char)
    requires
        0 <= i <= j,
        marker_at(s, j, up, lo),
        forall|k: int| i <= k < j ==> !marker_at(s, k, up, lo),
    ensures
        find_marker_from(s, i, up, lo) == Some(j),
    decreases j - i,
{
    if i < j {
        lemma_find_marker_first(s, i + 1, j, up, lo);
    }
}

/// When no marker stands anywhere in `s`, none is found.
pub proof fn lemma_find_marker_absent(s: Seq<char>, i: int, up: char, lo: char)
    requires
        0 <= i,
        forall|k: int| !marker_at(s, k, up, lo),
    ensures
        find_marker_from(s, i, up, lo) is None,
    decreases s.len() - i,
{
    if i + 4 > s.len() {
    } else {
        assert(!marker_at(s, i, up, lo));
        lemma_find_marker_absent(s, i + 1, up, lo);
    }
}

/// Every identifier whose first vendor-ID marker and first product-ID
/// marker are each followed by four hexadecimal digits — in either
/// order, interleaved with anything — parses to exactly those two
/// values.
pub proof fn lemma_extract_vid_pid_complete(s: Seq<char>, vi: int, pi: int)
    requires
        marker_at(s, vi, 'V', 'v'),
        forall|k: int| 0 <= k < vi ==> !marker_at(s, k, 'V', 'v'),
        hex4_at(s, vi + 4) is Some,
        marker_at(s, pi, 'P', 'p'),
        forall|k: int| 0 <= k < pi ==> !marker_at(s, k, 'P', 'p'),
        hex4_at(s, pi + 4) is Some,
    ensures
        spec_extract_vid_pid(s) == Some((hex4_at(s, vi + 4)->0, hex4_at(s, pi + 4)->0)),
{
    lemma_find_marker_first(s, 0, vi, 'V', 'v');
    lemma_find_marker_first(s, 0, pi, 'P', 'p');
}

/// Every identifier missing a vendor-ID or product-ID marker, or
/// whose first such marker is not followed by four hexadecimal
/// digits, fails to parse.
pub proof fn lemma_extract_vid_pid_incomplete(s: Seq<char>)
    requires
        ({
            ||| forall|k: int| !marker_at(s, k, 'V', 'v')
            ||| forall|k: int| !marker_at(s, k, 'P', 'p')
            ||| exists|j: int|
                marker_at(s, j, 'V', 'v') && (forall|k: int|
                    0 <= k < j ==> !marker_at(s, k, 'V', 'v')) && hex4_at(s, j + 4) is None
            ||| exists|j: int|
                marker_at(s, j, 'P', 'p') && (forall|k: int|
                    0 <= k < j ==> !marker_at(s, k, 'P', 'p')) && hex4_at(s, j + 4) is None
        }),
    ensures
        spec_extract_vid_pid(s) is None,
{
    if forall|k: int| !marker_at(s, k, 'V', 'v') {
        lemma_find_marker_absent(s, 0, 'V', 'v');
    } else if forall|k: int| !marker_at(s, k, 'P', 'p') {
        lemma_find_marker_absent(s, 0, 'P', 'p');
    } else if exists|j: int|
        marker_at(s, j, 'V', 'v') && (forall|k: int| 0 <= k < j ==> !marker_at(s, k, 'V', 'v'))
            && hex4_at(s, j + 4) is None {
        let j = choose|j: int|
            marker_at(s, j, 'V', 'v') && (forall|k: int| 0 <= k < j ==> !marker_at(s, k, 'V', 'v'))
                && hex4_at(s, j + 4) is None;
        lemma_find_marker_first(s, 0, j, 'V', 'v');
    } else {
        let j = choose|j: int|
            marker_at(s, j, 'P', 'p') && (forall|k: int| 0 <= k < j ==> !marker_at(s, k, 'P', 'p'))
                && hex4_at(s, j + 4) is None;
        lemma_find_marker_first(s, 0, j, 'P', 'p');
    }
}

/// Parsing is pure: what it returns depends on the identifier's
/// characters alone, so repeated extraction from equal identifiers
/// agrees.
pub proof fn lemma_parsing_deterministic(s1: Seq<char>, s2: Seq<char>)
    requires
        s1 == s2,
    ensures
        spec_extract_vid_pid(s1) == spec_extract_vid_pid(s2),
        spec_extract_serial(s1) == spec_extract_serial(s2),
{
}

} // verus!
