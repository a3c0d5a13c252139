//! The framing of a tag document.
//!
//! Before a document is parsed, the library checks that its bytes are framed
//! as the format demands: every length that the document states is covered
//! by the bytes that follow, every text is modified UTF-8, every kind of tag
//! is known, and the nesting is no deeper than `MAX_DEPTH`. `framed` says so
//! as a function of the bytes, and `is_framed` computes it.

use vstd::prelude::*;

verus! {

/// How deep lists and compounds may nest.
pub const MAX_DEPTH: usize = 512;

/// The kinds of tag (0 ends a compound).
pub const KIND_END: u8 = 0;

pub const KIND_BYTE: u8 = 1;

pub const KIND_SHORT: u8 = 2;

pub const KIND_INT: u8 = 3;

pub const KIND_LONG: u8 = 4;

pub const KIND_FLOAT: u8 = 5;

pub const KIND_DOUBLE: u8 = 6;

pub const KIND_BYTE_ARRAY: u8 = 7;

pub const KIND_TEXT: u8 = 8;

pub const KIND_LIST: u8 = 9;

pub const KIND_COMPOUND: u8 = 10;

pub const KIND_INT_ARRAY: u8 = 11;

pub const KIND_LONG_ARRAY: u8 = 12;

/// The unsigned 16-bit number at `at`, most significant byte first.
pub open spec fn be16(b: Seq<u8>, at: int) -> int {
    b[at] as int * 256 + b[at + 1] as int
}

/// The signed 32-bit number at `at`, most significant byte first.
pub open spec fn be32(b: Seq<u8>, at: int) -> int {
    let unsigned = b[at] as int * 16777216 + b[at + 1] as int * 65536 + b[at + 2] as int * 256
        + b[at + 3] as int;
    if unsigned >= 0x8000_0000 {
        unsigned - 0x1_0000_0000
    } else {
        unsigned
    }
}

/// Whether a byte continues a character.
pub open spec fn continues(byte: u8) -> bool {
    0x80 <= byte <= 0xBF
}

/// Whether the first two bytes of a three-byte character are in range and
/// spell no surrogate.
pub open spec fn plain_triple(first: u8, second: u8) -> bool {
    ||| first == 0xE0 && 0xA0 <= second <= 0xBF
    ||| 0xE1 <= first <= 0xEC && 0x80 <= second <= 0xBF
    ||| first == 0xED && 0x80 <= second <= 0x9F
    ||| 0xEE <= first <= 0xEF && 0x80 <= second <= 0xBF
}

/// Whether the bytes from `at` up to `end` are modified UTF-8: characters of
/// one, two or three bytes, the zero character as `C0 80` and never as a
/// zero byte, and a character beyond the basic plane as a pair of
/// surrogates of three bytes each.
pub open spec fn modified_utf8(b: Seq<u8>, at: int, end: int) -> bool
    decreases end - at,
{
    if at >= end {
        at == end
    } else {
        let first = b[at];
        if first == 0 {
            false
        } else if first < 0x80 {
            modified_utf8(b, at + 1, end)
        } else if first == 0xC0 {
            at + 2 <= end && b[at + 1] == 0x80 && modified_utf8(b, at + 2, end)
        } else if 0xC2 <= first <= 0xDF {
            at + 2 <= end && continues(b[at + 1]) && modified_utf8(b, at + 2, end)
        } else if 0xE0 <= first <= 0xEF {
            if at + 3 <= end && continues(b[at + 1]) && continues(b[at + 2]) {
                if plain_triple(first, b[at + 1]) {
                    modified_utf8(b, at + 3, end)
                } else if first == 0xED && 0xA0 <= b[at + 1] <= 0xAF {
                    at + 6 <= end && b[at + 3] == 0xED && 0xB0 <= b[at + 4] <= 0xBF && continues(
                        b[at + 5],
                    ) && modified_utf8(b, at + 6, end)
                } else {
                    false
                }
            } else {
                false
            }
        } else {
            false
        }
    }
}

/// Where `count` bytes from `at` end, if the document has them.
pub open spec fn span_end(b: Seq<u8>, at: int, count: int) -> Option<int> {
    if 0 <= at && 0 <= count && at + count <= b.len() {
        Some(at + count)
    } else {
        None
    }
}

/// Where the text at `at` ends: a length of 16 bits, then as many bytes of
/// modified UTF-8.
pub open spec fn text_end(b: Seq<u8>, at: int) -> Option<int> {
    if 0 <= at && at + 2 <= b.len() && at + 2 + be16(b, at) <= b.len() && modified_utf8(
        b,
        at + 2,
        at + 2 + be16(b, at),
    ) {
        Some(at + 2 + be16(b, at))
    } else {
        None
    }
}

/// Where the array at `at` ends: a count of 32 bits that is not negative,
/// then as many elements of `width` bytes.
pub open spec fn array_end(b: Seq<u8>, at: int, width: int) -> Option<int> {
    if 0 <= at && at + 4 <= b.len() && be32(b, at) >= 0 {
        span_end(b, at + 4, be32(b, at) * width)
    } else {
        None
    }
}

/// Where the payload of a tag of kind `kind` at `at` ends, with `depth`
/// levels of nesting left, or `None` where it is not framed.
pub open spec fn payload_end(b: Seq<u8>, at: int, kind: u8, depth: nat) -> Option<int>
    decreases depth, 0nat, 0nat,
{
    if kind == KIND_BYTE {
        span_end(b, at, 1)
    } else if kind == KIND_SHORT {
        span_end(b, at, 2)
    } else if kind == KIND_INT || kind == KIND_FLOAT {
        span_end(b, at, 4)
    } else if kind == KIND_LONG || kind == KIND_DOUBLE {
        span_end(b, at, 8)
    } else if kind == KIND_BYTE_ARRAY {
        array_end(b, at, 1)
    } else if kind == KIND_INT_ARRAY {
        array_end(b, at, 4)
    } else if kind == KIND_LONG_ARRAY {
        array_end(b, at, 8)
    } else if kind == KIND_TEXT {
        text_end(b, at)
    } else if kind == KIND_LIST {
        if depth > 0 && 0 <= at && at + 5 <= b.len() && be32(b, at + 1) >= 0 {
            items_end(b, at + 5, b[at], be32(b, at + 1) as nat, (depth - 1) as nat)
        } else {
            None
        }
    } else if kind == KIND_COMPOUND {
        if depth > 0 {
            children_end(b, at, false, (depth - 1) as nat)
        } else {
            None
        }
    } else {
        None
    }
}

/// Where `count` payloads of kind `kind`, one after another from `at`, end.
pub open spec fn items_end(b: Seq<u8>, at: int, kind: u8, count: nat, depth: nat) -> Option<int>
    decreases depth, 1nat, count,
{
    if count == 0 {
        Some(at)
    } else {
        match payload_end(b, at, kind, depth) {
            Some(next) => items_end(b, next, kind, (count - 1) as nat, depth),
            None => None,
        }
    }
}

/// Where the content of a compound at `at` ends: named tags, each a kind, a
/// name and a payload, up to a zero byte; where `open_end` holds, the end of
/// the bytes closes the compound too.
pub open spec fn children_end(b: Seq<u8>, at: int, open_end: bool, depth: nat) -> Option<int>
    decreases depth, 1nat, b.len() - at,
{
    if at < 0 {
        None
    } else if at >= b.len() {
        if open_end && at == b.len() {
            Some(at)
        } else {
            None
        }
    } else if b[at] == KIND_END {
        Some(at + 1)
    } else {
        match text_end(b, at + 1) {
            Some(named) => match payload_end(b, named, b[at], depth) {
                Some(next) => if at < next <= b.len() {
                    children_end(b, next, open_end, depth)
                } else {
                    None
                },
                None => None,
            },
            None => None,
        }
    }
}

/// Whether `b` is framed as the content of a compound that the end of the
/// bytes may close.
pub open spec fn framed(b: Seq<u8>) -> bool {
    children_end(b, 0, true, MAX_DEPTH as nat) is Some
}

/// The view of an optional position.
pub open spec fn position_view(position: Option<usize>) -> Option<int> {
    match position {
        Some(p) => Some(p as int),
        None => None,
    }
}

fn read_be16(b: &[u8], at: usize) -> (r: usize)
    requires
        at + 2 <= b@.len(),
    ensures
        r == be16(b@, at as int),
        r <= 0xFFFF,
{
    let high: usize = b[at] as usize;
    let low: usize = b[at + 1] as usize;
    high * 256 + low
}

fn read_be32(b: &[u8], at: usize) -> (r: i64)
    requires
        at + 4 <= b@.len(),
    ensures
        r == be32(b@, at as int),
        -0x8000_0000 <= r < 0x8000_0000,
{
    let b0: i64 = b[at] as i64;
    let b1: i64 = b[at + 1] as i64;
    let b2: i64 = b[at + 2] as i64;
    let b3: i64 = b[at + 3] as i64;
    let unsigned: i64 = b0 * 16777216 + b1 * 65536 + b2 * 256 + b3;
    if unsigned >= 0x8000_0000 {
        unsigned - 0x1_0000_0000
    } else {
        unsigned
    }
}

fn is_continuation(byte: u8) -> (r: bool)
    ensures
        r == continues(byte),
{
    0x80 <= byte && byte <= 0xBF
}

fn is_plain_triple(first: u8, second: u8) -> (r: bool)
    ensures
        r == plain_triple(first, second),
{
    (first == 0xE0 && 0xA0 <= second && second <= 0xBF) || (0xE1 <= first && first <= 0xEC && 0x80
        <= second && second <= 0xBF) || (first == 0xED && 0x80 <= second && second <= 0x9F) || (
    0xEE <= first && first <= 0xEF && 0x80 <= second && second <= 0xBF)
}

/// Whether `at` and `end` mark a range of `b` whose bytes are modified
/// UTF-8.
pub fn is_modified_utf8(b: &[u8], at: usize, end: usize) -> (r: bool)
    ensures
        r == (at <= end <= b@.len() && modified_utf8(b@, at as int, end as int)),
{
    if at > end || end > b.len() {
        return false;
    }
    let mut i: usize = at;
    while i < end
        invariant
            at <= i <= end <= b@.len(),
            modified_utf8(b@, at as int, end as int) == modified_utf8(b@, i as int, end as int),
        decreases end - i,
    {
        let first: u8 = b[i];
        let left: usize = end - i;
        if first == 0 {
            return false;
        } else if first < 0x80 {
            i += 1;
        } else if first == 0xC0 {
            if left >= 2 && b[i + 1] == 0x80 {
                i += 2;
            } else {
                return false;
            }
        } else if 0xC2 <= first && first <= 0xDF {
            if left >= 2 && is_continuation(b[i + 1]) {
                i += 2;
            } else {
                return false;
            }
        } else if 0xE0 <= first && first <= 0xEF {
            if left >= 3 && is_continuation(b[i + 1]) && is_continuation(b[i + 2]) {
                let second: u8 = b[i + 1];
                if is_plain_triple(first, second) {
                    i += 3;
                } else if first == 0xED && 0xA0 <= second && second <= 0xAF {
                    if left >= 6 && b[i + 3] == 0xED && 0xB0 <= b[i + 4] && b[i + 4] <= 0xBF
                        && is_continuation(b[i + 5]) {
                        i += 6;
                    } else {
                        return false;
                    }
                } else {
                    return false;
                }
            } else {
                return false;
            }
        } else {
            return false;
        }
    }
    true
}

fn find_span_end(b: &[u8], at: usize, count: u64) -> (r: Option<usize>)
    requires
        at <= b@.len(),
    ensures
        position_view(r) == span_end(b@, at as int, count as int),
{
    let left: usize = b.len() - at;
    if count <= left as u64 {
        Some(at + count as usize)
    } else {
        None
    }
}

fn find_text_end(b: &[u8], at: usize) -> (r: Option<usize>)
    requires
        at <= b@.len(),
    ensures
        position_view(r) == text_end(b@, at as int),
        r matches Some(p) ==> at + 2 <= p <= b@.len(),
{
    let left: usize = b.len() - at;
    if left < 2 {
        return None;
    }
    let length: usize = read_be16(b, at);
    if length > left - 2 {
        return None;
    }
    if is_modified_utf8(b, at + 2, at + 2 + length) {
        Some(at + 2 + length)
    } else {
        None
    }
}

fn find_array_end(b: &[u8], at: usize, width: u64) -> (r: Option<usize>)
    requires
        at <= b@.len(),
        1 <= width <= 8,
    ensures
        position_view(r) == array_end(b@, at as int, width as int),
        r matches Some(p) ==> at + 4 <= p <= b@.len(),
{
    let left: usize = b.len() - at;
    if left < 4 {
        return None;
    }
    let count: i64 = read_be32(b, at);
    if count < 0 {
        return None;
    }
    assert(count * width <= 0x8000_0000 * 8) by (nonlinear_arith)
        requires
            0 <= count < 0x8000_0000,
            1 <= width <= 8,
    ;
    assert(0 <= count * width) by (nonlinear_arith)
        requires
            0 <= count,
            1 <= width,
    ;
    find_span_end(b, at + 4, count as u64 * width)
}

fn find_payload_end(b: &[u8], at: usize, kind: u8, depth: usize) -> (r: Option<usize>)
    requires
        at <= b@.len(),
    ensures
        position_view(r) == payload_end(b@, at as int, kind, depth as nat),
        r matches Some(p) ==> at <= p <= b@.len(),
        r matches Some(p) ==> kind != KIND_END && p > at,
    decreases depth, 0nat,
{
    if kind == KIND_BYTE {
        find_span_end(b, at, 1)
    } else if kind == KIND_SHORT {
        find_span_end(b, at, 2)
    } else if kind == KIND_INT || kind == KIND_FLOAT {
        find_span_end(b, at, 4)
    } else if kind == KIND_LONG || kind == KIND_DOUBLE {
        find_span_end(b, at, 8)
    } else if kind == KIND_BYTE_ARRAY {
        find_array_end(b, at, 1)
    } else if kind == KIND_INT_ARRAY {
        find_array_end(b, at, 4)
    } else if kind == KIND_LONG_ARRAY {
        find_array_end(b, at, 8)
    } else if kind == KIND_TEXT {
        find_text_end(b, at)
    } else if kind == KIND_LIST {
        let left: usize = b.len() - at;
        if depth == 0 || left < 5 {
            return None;
        }
        let count: i64 = read_be32(b, at + 1);
        if count < 0 {
            return None;
        }
        find_items_end(b, at + 5, b[at], count as u64, depth - 1)
    } else if kind == KIND_COMPOUND {
        if depth == 0 {
            return None;
        }
        find_children_end(b, at, false, depth - 1)
    } else {
        None
    }
}

fn find_items_end(b: &[u8], at: usize, kind: u8, count: u64, depth: usize) -> (r: Option<usize>)
    requires
        at <= b@.len(),
    ensures
        position_view(r) == items_end(b@, at as int, kind, count as nat, depth as nat),
        r matches Some(p) ==> at <= p <= b@.len(),
    decreases depth, 1nat,
{
    let mut position: usize = at;
    let mut left: u64 = count;
    while left > 0
        invariant
            at <= position <= b@.len(),
            items_end(b@, at as int, kind, count as nat, depth as nat) == items_end(
                b@,
                position as int,
                kind,
                left as nat,
                depth as nat,
            ),
        decreases left,
    {
        match find_payload_end(b, position, kind, depth) {
            Some(next) => {
                position = next;
                left -= 1;
            },
            None => {
                return None;
            },
        }
    }
    Some(position)
}

fn find_children_end(b: &[u8], at: usize, open_end: bool, depth: usize) -> (r: Option<usize>)
    requires
        at <= b@.len(),
    ensures
        position_view(r) == children_end(b@, at as int, open_end, depth as nat),
        r matches Some(p) ==> at <= p <= b@.len(),
        r matches Some(p) ==> open_end || p > at,
    decreases depth, 1nat,
{
    let mut position: usize = at;
    loop
        invariant
            at <= position <= b@.len(),
            children_end(b@, at as int, open_end, depth as nat) == children_end(
                b@,
                position as int,
                open_end,
                depth as nat,
            ),
        decreases b@.len() - position,
    {
        if position >= b.len() {
            return if open_end {
                Some(position)
            } else {
                None
            };
        }
        let kind: u8 = b[position];
        if kind == KIND_END {
            return Some(position + 1);
        }
        let named: usize = match find_text_end(b, position + 1) {
            Some(named) => named,
            None => {
                return None;
            },
        };
        match find_payload_end(b, named, kind, depth) {
            Some(next) => {
                position = next;
            },
            None => {
                return None;
            },
        }
    }
}

/// Whether `bytes` are framed as a document.
pub fn is_framed(bytes: &[u8]) -> (r: bool)
    ensures
        r == framed(bytes@),
{
    find_children_end(bytes, 0, true, MAX_DEPTH).is_some()
}

} // verus!
