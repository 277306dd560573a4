//! Reading the blob references out of a stored changeset manifest.
//!
//! A manifest is a JSON document (RFC 8259) whose root object holds an
//! `entries` array; every entry may carry a `before` and an `after` object,
//! and each of those may name its payload under `blob` as a digest in
//! lowercase hexadecimal. The grammar is stated below over the document's
//! UTF-8 bytes, position by position; the executable reader follows it
//! step for step.
//!
//! Strings are decoded into code units: a literal byte is itself, a short
//! escape its character, and `\uXXXX` its 16-bit value. Member names are
//! compared decoded, so an escaped spelling of a name matches it. When an
//! object repeats a member name, the last occurrence is the one read.

use vstd::prelude::*;

verus! {

// ---- Lexical pieces -----------------------------------------------------------

pub open spec fn is_ws(b: u8) -> bool {
    b == 0x20 || b == 0x09 || b == 0x0a || b == 0x0d
}

pub open spec fn is_digit(b: u8) -> bool {
    0x30 <= b <= 0x39
}

/// The value of a hexadecimal digit, in either case.
pub open spec fn hex_value(b: u8) -> Option<u32> {
    if 0x30 <= b <= 0x39 {
        Some((b - 0x30) as u32)
    } else if 0x61 <= b <= 0x66 {
        Some((b - 0x61 + 10) as u32)
    } else if 0x41 <= b <= 0x46 {
        Some((b - 0x41 + 10) as u32)
    } else {
        None
    }
}

/// The first position at or after `i` that is not whitespace.
pub open spec fn skip_ws(t: Seq<u8>, i: int) -> int
    decreases t.len() - i,
{
    if 0 <= i < t.len() && is_ws(t[i]) {
        skip_ws(t, i + 1)
    } else {
        i
    }
}

/// The first position at or after `i` that is not a decimal digit.
pub open spec fn digits_end(t: Seq<u8>, i: int) -> int
    decreases t.len() - i,
{
    if 0 <= i < t.len() && is_digit(t[i]) {
        digits_end(t, i + 1)
    } else {
        i
    }
}

/// Whether a digit stands at `i`.
pub open spec fn digit_at(t: Seq<u8>, i: int) -> bool {
    0 <= i < t.len() && is_digit(t[i])
}

/// Whether byte `b` stands at `i`.
pub open spec fn byte_at(t: Seq<u8>, i: int, b: u8) -> bool {
    0 <= i < t.len() && t[i] == b
}

/// Where the number starting at `i` ends: an optional minus, an integer
/// part without leading zeros, an optional fraction and an optional
/// exponent.
pub open spec fn number_end(t: Seq<u8>, i: int) -> Option<int> {
    let a = if byte_at(t, i, 0x2d) { i + 1 } else { i };
    if !digit_at(t, a) {
        None
    } else {
        let b = if t[a] == 0x30 { a + 1 } else { digits_end(t, a) };
        let c = if byte_at(t, b, 0x2e) {
            if digit_at(t, b + 1) { Some(digits_end(t, b + 1)) } else { None }
        } else {
            Some(b)
        };
        match c {
            None => None,
            Some(c) => if byte_at(t, c, 0x65) || byte_at(t, c, 0x45) {
                let d = if byte_at(t, c + 1, 0x2b) || byte_at(t, c + 1, 0x2d) { c + 2 } else { c + 1 };
                if digit_at(t, d) { Some(digits_end(t, d)) } else { None }
            } else {
                Some(c)
            },
        }
    }
}

/// The code unit a short escape `\e` stands for.
pub open spec fn short_escape(e: u8) -> Option<u32> {
    if e == 0x22 {
        Some(0x22u32)
    } else if e == 0x5c {
        Some(0x5cu32)
    } else if e == 0x2f {
        Some(0x2fu32)
    } else if e == 0x62 {
        Some(0x08u32)
    } else if e == 0x66 {
        Some(0x0cu32)
    } else if e == 0x6e {
        Some(0x0au32)
    } else if e == 0x72 {
        Some(0x0du32)
    } else if e == 0x74 {
        Some(0x09u32)
    } else {
        None
    }
}

/// The value of the four hexadecimal digits at `i`.
pub open spec fn hex4_at(t: Seq<u8>, i: int) -> Option<u32> {
    if !(0 <= i && i + 4 <= t.len()) {
        None
    } else {
        match (hex_value(t[i]), hex_value(t[i + 1]), hex_value(t[i + 2]), hex_value(t[i + 3])) {
            (Some(a), Some(b), Some(c), Some(d)) => Some((a * 4096 + b * 256 + c * 16 + d) as u32),
            _ => None,
        }
    }
}

/// The escape starting at `i` (just after a backslash): its unit and the
/// position after it.
pub open spec fn escape_at(t: Seq<u8>, i: int) -> Option<(u32, int)> {
    if !(0 <= i < t.len()) {
        None
    } else if t[i] == 0x75 {
        match hex4_at(t, i + 1) {
            Some(u) => Some((u, i + 5)),
            None => None,
        }
    } else {
        match short_escape(t[i]) {
            Some(u) => Some((u, i + 1)),
            None => None,
        }
    }
}

/// The rest of a string from `i` (inside the quotes), with `acc` decoded
/// so far: the decoded units and the position after the closing quote.
/// Control bytes may not stand raw in a string.
pub open spec fn string_rest(t: Seq<u8>, i: int, acc: Seq<u32>) -> Option<(Seq<u32>, int)>
    decreases t.len() - i,
{
    if !(0 <= i < t.len()) {
        None
    } else if t[i] == 0x22 {
        Some((acc, i + 1))
    } else if t[i] < 0x20 {
        None
    } else if t[i] == 0x5c {
        match escape_at(t, i + 1) {
            Some((u, n)) => if n > i { string_rest(t, n, acc.push(u)) } else { None },
            None => None,
        }
    } else {
        string_rest(t, i + 1, acc.push(t[i] as u32))
    }
}

/// The string whose opening quote is at `i`.
pub open spec fn string_at(t: Seq<u8>, i: int) -> Option<(Seq<u32>, int)> {
    if byte_at(t, i, 0x22) {
        string_rest(t, i + 1, Seq::empty())
    } else {
        None
    }
}

// ---- Values -------------------------------------------------------------------

/// Whether the four or five bytes at `i` spell `null`, `true` or `false`;
/// the position after the literal.
pub open spec fn literal_end(t: Seq<u8>, i: int) -> Option<int> {
    if byte_at(t, i, 0x6e) && byte_at(t, i + 1, 0x75) && byte_at(t, i + 2, 0x6c) && byte_at(t, i + 3, 0x6c) {
        Some(i + 4)
    } else if byte_at(t, i, 0x74) && byte_at(t, i + 1, 0x72) && byte_at(t, i + 2, 0x75) && byte_at(t, i + 3, 0x65) {
        Some(i + 4)
    } else if byte_at(t, i, 0x66) && byte_at(t, i + 1, 0x61) && byte_at(t, i + 2, 0x6c) && byte_at(t, i + 3, 0x73)
        && byte_at(t, i + 4, 0x65) {
        Some(i + 5)
    } else {
        None
    }
}

/// Where the value starting at `i` ends.
pub open spec fn value_end(t: Seq<u8>, i: int) -> Option<int>
    decreases t.len() - i, 0int,
{
    if !(0 <= i < t.len()) {
        None
    } else if t[i] == 0x22 {
        match string_at(t, i) {
            Some((_, e)) => Some(e),
            None => None,
        }
    } else if t[i] == 0x5b {
        elements_end(t, i + 1)
    } else if t[i] == 0x7b {
        members_end(t, i + 1)
    } else if t[i] == 0x2d || is_digit(t[i]) {
        number_end(t, i)
    } else {
        literal_end(t, i)
    }
}

/// Where an array ends, from just after its `[`.
pub open spec fn elements_end(t: Seq<u8>, i: int) -> Option<int>
    decreases t.len() - i, 2int,
{
    let j = skip_ws(t, i);
    if j < i || j > t.len() {
        None
    } else if byte_at(t, j, 0x5d) {
        Some(j + 1)
    } else {
        elements_from(t, j)
    }
}

/// Where an array ends, from the start of one of its elements.
pub open spec fn elements_from(t: Seq<u8>, j: int) -> Option<int>
    decreases t.len() - j, 1int,
{
    if !(0 <= j < t.len()) {
        None
    } else {
        match value_end(t, j) {
            None => None,
            Some(k) => {
                let m = skip_ws(t, k);
                if k <= j || m < k {
                    None
                } else if byte_at(t, m, 0x2c) {
                    let n = skip_ws(t, m + 1);
                    if n <= m || n > t.len() { None } else { elements_from(t, n) }
                } else if byte_at(t, m, 0x5d) {
                    Some(m + 1)
                } else {
                    None
                }
            },
        }
    }
}

/// Where an object ends, from just after its `{`.
pub open spec fn members_end(t: Seq<u8>, i: int) -> Option<int>
    decreases t.len() - i, 2int,
{
    let j = skip_ws(t, i);
    if j < i || j > t.len() {
        None
    } else if byte_at(t, j, 0x7d) {
        Some(j + 1)
    } else {
        members_from(t, j)
    }
}

/// Where a member's value starts, given the member's first byte: its name
/// and the value's start.
pub open spec fn member_head(t: Seq<u8>, j: int) -> Option<(Seq<u32>, int)> {
    match string_at(t, j) {
        None => None,
        Some((name, k)) => {
            let m = skip_ws(t, k);
            if byte_at(t, m, 0x3a) && m >= k {
                let n = skip_ws(t, m + 1);
                if n > m { Some((name, n)) } else { None }
            } else {
                None
            }
        },
    }
}

/// Where an object ends, from the start of one of its members.
pub open spec fn members_from(t: Seq<u8>, j: int) -> Option<int>
    decreases t.len() - j, 1int,
{
    if !(0 <= j < t.len()) {
        None
    } else {
        match member_head(t, j) {
            None => None,
            Some((_, n)) => if n <= j || n > t.len() {
                None
            } else {
                match value_end(t, n) {
                    None => None,
                    Some(e) => {
                        let p = skip_ws(t, e);
                        if e <= n || p < e {
                            None
                        } else if byte_at(t, p, 0x2c) {
                            let q = skip_ws(t, p + 1);
                            if q <= p || q > t.len() { None } else { members_from(t, q) }
                        } else if byte_at(t, p, 0x7d) {
                            Some(p + 1)
                        } else {
                            None
                        }
                    },
                }
            },
        }
    }
}

/// Whether `t` is one JSON value with optional surrounding whitespace.
pub open spec fn document_ok(t: Seq<u8>) -> bool {
    let j = skip_ws(t, 0);
    match value_end(t, j) {
        Some(e) => skip_ws(t, e) == t.len(),
        None => false,
    }
}

// ---- Navigation ---------------------------------------------------------------

/// The value start of the last member named `name` among the members from
/// `j` on, `found` being the last one seen before `j`.
pub open spec fn lookup_from(t: Seq<u8>, j: int, name: Seq<u32>, found: Option<int>) -> Option<int>
    decreases t.len() - j,
{
    if !(0 <= j < t.len()) {
        found
    } else {
        match member_head(t, j) {
            None => found,
            Some((key, n)) => {
                let seen = if key == name { Some(n) } else { found };
                if n <= j {
                    seen
                } else {
                    match value_end(t, n) {
                        None => seen,
                        Some(e) => {
                            let p = skip_ws(t, e);
                            if e <= n || p < e {
                                seen
                            } else if byte_at(t, p, 0x2c) {
                                let q = skip_ws(t, p + 1);
                                if q <= p || q > t.len() { seen } else { lookup_from(t, q, name, seen) }
                            } else {
                                seen
                            }
                        },
                    }
                }
            },
        }
    }
}

/// The start of the value of member `name` of the object at `i`, when the
/// value at `i` is an object holding such a member.
pub open spec fn member_of(t: Seq<u8>, i: int, name: Seq<u32>) -> Option<int> {
    if byte_at(t, i, 0x7b) {
        let j = skip_ws(t, i + 1);
        if byte_at(t, j, 0x7d) || j <= i {
            None
        } else {
            lookup_from(t, j, name, None)
        }
    } else {
        None
    }
}

/// The element starts of an array, from the start of one of its elements,
/// after `acc`.
pub open spec fn items_from(t: Seq<u8>, j: int, acc: Seq<int>) -> Seq<int>
    decreases t.len() - j,
{
    if !(0 <= j < t.len()) {
        acc
    } else {
        match value_end(t, j) {
            None => acc.push(j),
            Some(k) => {
                let m = skip_ws(t, k);
                if k <= j || m < k {
                    acc.push(j)
                } else if byte_at(t, m, 0x2c) {
                    let n = skip_ws(t, m + 1);
                    if n <= m || n > t.len() { acc.push(j) } else { items_from(t, n, acc.push(j)) }
                } else {
                    acc.push(j)
                }
            },
        }
    }
}

/// The element starts of the array at `i`, when the value at `i` is an
/// array.
pub open spec fn items_of(t: Seq<u8>, i: int) -> Option<Seq<int>> {
    if byte_at(t, i, 0x5b) {
        let j = skip_ws(t, i + 1);
        if byte_at(t, j, 0x5d) || j <= i {
            Some(Seq::empty())
        } else {
            Some(items_from(t, j, Seq::empty()))
        }
    } else {
        None
    }
}

// ---- The manifest -------------------------------------------------------------

pub open spec fn entries_name() -> Seq<u32> {
    seq![0x65u32, 0x6e, 0x74, 0x72, 0x69, 0x65, 0x73]
}

pub open spec fn before_name() -> Seq<u32> {
    seq![0x62u32, 0x65, 0x66, 0x6f, 0x72, 0x65]
}

pub open spec fn after_name() -> Seq<u32> {
    seq![0x61u32, 0x66, 0x74, 0x65, 0x72]
}

pub open spec fn blob_name() -> Seq<u32> {
    seq![0x62u32, 0x6c, 0x6f, 0x62]
}

/// The value of a lowercase hexadecimal digit.
pub open spec fn lower_hex(u: u32) -> Option<u8> {
    if 0x30 <= u <= 0x39 {
        Some((u - 0x30) as u8)
    } else if 0x61 <= u <= 0x66 {
        Some((u - 0x61 + 10) as u8)
    } else {
        None
    }
}

/// The 32 bytes a 64-digit lowercase hexadecimal digest spells, from the
/// `k`-th byte on, after `acc`.
pub open spec fn digest_from(units: Seq<u32>, k: int, acc: Seq<u8>) -> Option<Seq<u8>>
    decreases 32 - k,
{
    if units.len() != 64 || k < 0 {
        None
    } else if k >= 32 {
        Some(acc)
    } else {
        match (lower_hex(units[2 * k]), lower_hex(units[2 * k + 1])) {
            (Some(h), Some(l)) => digest_from(units, k + 1, acc.push((h * 16 + l) as u8)),
            _ => None,
        }
    }
}

/// What one side of an entry references: `Ok(None)` when it names no blob
/// string, `Ok(Some(d))` for a digest, `Err` for a blob string that is not
/// one.
pub open spec fn side_reference(t: Seq<u8>, entry: int, side: Seq<u32>) -> Result<Option<Seq<u8>>, ()> {
    match member_of(t, entry, side) {
        None => Ok(None),
        Some(state) => match member_of(t, state, blob_name()) {
            None => Ok(None),
            Some(b) => match string_at(t, b) {
                None => Ok(None),
                Some((units, _)) => match digest_from(units, 0, Seq::empty()) {
                    Some(d) => Ok(Some(d)),
                    None => Err(()),
                },
            },
        },
    }
}

/// The references after entry `e`'s, appended to `acc`: its `before`
/// blob, then its `after` blob; `None` when either names a blob string that
/// is not a digest.
#[verifier::opaque]
pub open spec fn entry_references(t: Seq<u8>, e: int, acc: Seq<Seq<u8>>) -> Option<Seq<Seq<u8>>> {
    match side_reference(t, e, before_name()) {
        Err(_) => None,
        Ok(b) => {
            let acc1 = match b {
                Some(d) => acc.push(d),
                None => acc,
            };
            match side_reference(t, e, after_name()) {
                Err(_) => None,
                Ok(a) => Some(match a {
                    Some(d) => acc1.push(d),
                    None => acc1,
                }),
            }
        },
    }
}

/// The references of entries `k..` of `items`, after `acc`; `None` when a
/// blob string is not a digest.
pub open spec fn references_from(t: Seq<u8>, items: Seq<int>, k: int, acc: Seq<Seq<u8>>) -> Option<Seq<Seq<u8>>>
    decreases items.len() - k,
{
    if !(0 <= k < items.len()) {
        Some(acc)
    } else {
        match entry_references(t, items[k], acc) {
            None => None,
            Some(next) => references_from(t, items, k + 1, next),
        }
    }
}

/// Every payload digest a manifest references, entry by entry, `before`
/// then `after`; `None` when the document does not parse, has no `entries`
/// array at its root, or names a blob that is not a digest (or is longer
/// than any slice can be, with room to index past its end).
pub open spec fn manifest_references(t: Seq<u8>) -> Option<Seq<Seq<u8>>> {
    if t.len() + 8 > usize::MAX || !document_ok(t) {
        None
    } else {
        match member_of(t, skip_ws(t, 0), entries_name()) {
            None => None,
            Some(p) => match items_of(t, p) {
                None => None,
                Some(items) => references_from(t, items, 0, Seq::empty()),
            },
        }
    }
}

// ---- Reading ------------------------------------------------------------------

/// A position result read as an integer one.
pub open spec fn pos(r: Option<usize>) -> Option<int> {
    match r {
        Some(e) => Some(e as int),
        None => None,
    }
}

pub proof fn lemma_skip_ws_bounds(t: Seq<u8>, i: int)
    requires
        0 <= i <= t.len(),
    ensures
        i <= skip_ws(t, i) <= t.len(),
    decreases t.len() - i,
{
    if i < t.len() && is_ws(t[i]) {
        lemma_skip_ws_bounds(t, i + 1);
    }
}

pub proof fn lemma_digits_bounds(t: Seq<u8>, i: int)
    requires
        0 <= i <= t.len(),
    ensures
        i <= digits_end(t, i) <= t.len(),
    decreases t.len() - i,
{
    if i < t.len() && is_digit(t[i]) {
        lemma_digits_bounds(t, i + 1);
    }
}

fn byte_is(t: &[u8], i: usize, b: u8) -> (r: bool)
    requires
        t@.len() + 8 <= usize::MAX,
    ensures
        r == byte_at(t@, i as int, b),
{
    i < t.len() && t[i] == b
}

fn skip_ws_of(t: &[u8], i: usize) -> (r: usize)
    requires
        t@.len() + 8 <= usize::MAX,
        i <= t@.len(),
    ensures
        r == skip_ws(t@, i as int),
        i <= r <= t@.len(),
{
    proof {
        lemma_skip_ws_bounds(t@, i as int);
    }
    let mut j: usize = i;
    while j < t.len() && (t[j] == 0x20 || t[j] == 0x09 || t[j] == 0x0a || t[j] == 0x0d)
        invariant
            i <= j <= t@.len(),
            skip_ws(t@, j as int) == skip_ws(t@, i as int),
        decreases t@.len() - j,
    {
        j = j + 1;
    }
    j
}

fn digits_end_of(t: &[u8], i: usize) -> (r: usize)
    requires
        t@.len() + 8 <= usize::MAX,
        i <= t@.len(),
    ensures
        r == digits_end(t@, i as int),
        i <= r <= t@.len(),
{
    let mut j: usize = i;
    while j < t.len() && 0x30 <= t[j] && t[j] <= 0x39
        invariant
            i <= j <= t@.len(),
            digits_end(t@, j as int) == digits_end(t@, i as int),
        decreases t@.len() - j,
    {
        j = j + 1;
    }
    j
}

fn digit_is(t: &[u8], i: usize) -> (r: bool)
    requires
        t@.len() + 8 <= usize::MAX,
    ensures
        r == digit_at(t@, i as int),
{
    i < t.len() && 0x30 <= t[i] && t[i] <= 0x39
}

fn number_end_of(t: &[u8], i: usize) -> (r: Option<usize>)
    requires
        t@.len() + 8 <= usize::MAX,
        i <= t@.len(),
    ensures
        pos(r) == number_end(t@, i as int),
        r matches Some(e) ==> e <= t@.len(),
{
    let a: usize = if byte_is(t, i, 0x2d) { i + 1 } else { i };
    if !digit_is(t, a) {
        return None;
    }
    let b: usize = if t[a] == 0x30 { a + 1 } else { digits_end_of(t, a) };
    let c: usize = if byte_is(t, b, 0x2e) {
        if digit_is(t, b + 1) {
            digits_end_of(t, b + 1)
        } else {
            return None;
        }
    } else {
        b
    };
    if byte_is(t, c, 0x65) || byte_is(t, c, 0x45) {
        let d: usize = if byte_is(t, c + 1, 0x2b) || byte_is(t, c + 1, 0x2d) { c + 2 } else { c + 1 };
        if digit_is(t, d) {
            Some(digits_end_of(t, d))
        } else {
            None
        }
    } else {
        Some(c)
    }
}

fn hex_value_of(b: u8) -> (r: Option<u32>)
    ensures
        r == hex_value(b),
{
    if 0x30 <= b && b <= 0x39 {
        Some((b - 0x30) as u32)
    } else if 0x61 <= b && b <= 0x66 {
        Some((b - 0x61 + 10) as u32)
    } else if 0x41 <= b && b <= 0x46 {
        Some((b - 0x41 + 10) as u32)
    } else {
        None
    }
}

fn short_escape_of(e: u8) -> (r: Option<u32>)
    ensures
        r == short_escape(e),
{
    if e == 0x22 {
        Some(0x22u32)
    } else if e == 0x5c {
        Some(0x5cu32)
    } else if e == 0x2f {
        Some(0x2fu32)
    } else if e == 0x62 {
        Some(0x08u32)
    } else if e == 0x66 {
        Some(0x0cu32)
    } else if e == 0x6e {
        Some(0x0au32)
    } else if e == 0x72 {
        Some(0x0du32)
    } else if e == 0x74 {
        Some(0x09u32)
    } else {
        None
    }
}

fn escape_of(t: &[u8], i: usize) -> (r: Option<(u32, usize)>)
    requires
        t@.len() + 8 <= usize::MAX,
        i <= t@.len(),
    ensures
        match r {
            Some((u, n)) => escape_at(t@, i as int) == Some((u, n as int)) && n <= t@.len(),
            None => escape_at(t@, i as int) is None,
        },
{
    if i >= t.len() {
        return None;
    }
    if t[i] == 0x75 {
        if i + 5 > t.len() {
            return None;
        }
        match (hex_value_of(t[i + 1]), hex_value_of(t[i + 2]), hex_value_of(t[i + 3]), hex_value_of(t[i + 4])) {
            (Some(a), Some(b), Some(c), Some(d)) => {
                assert(a < 16 && b < 16 && c < 16 && d < 16);
                Some((a * 4096 + b * 256 + c * 16 + d, i + 5))
            },
            _ => None,
        }
    } else {
        match short_escape_of(t[i]) {
            Some(u) => Some((u, i + 1)),
            None => None,
        }
    }
}

/// Reads the string whose opening quote is at `i`.
fn string_of(t: &[u8], i: usize) -> (r: Option<(Vec<u32>, usize)>)
    requires
        t@.len() + 8 <= usize::MAX,
        i <= t@.len(),
    ensures
        match r {
            Some((units, e)) => string_at(t@, i as int) == Some((units@, e as int)) && e <= t@.len(),
            None => string_at(t@, i as int) is None,
        },
{
    if !byte_is(t, i, 0x22) {
        return None;
    }
    let mut acc: Vec<u32> = Vec::new();
    let mut j: usize = i + 1;
    loop
        invariant
            t@.len() + 8 <= usize::MAX,
            i < j <= t@.len(),
            string_rest(t@, j as int, acc@) == string_at(t@, i as int),
        decreases t@.len() - j,
    {
        if j >= t.len() {
            return None;
        }
        let b: u8 = t[j];
        if b == 0x22 {
            return Some((acc, j + 1));
        }
        if b < 0x20 {
            return None;
        }
        if b == 0x5c {
            match escape_of(t, j + 1) {
                Some((u, n)) => {
                    acc.push(u);
                    j = n;
                },
                None => return None,
            }
        } else {
            acc.push(b as u32);
            j = j + 1;
        }
    }
}

fn literal_end_of(t: &[u8], i: usize) -> (r: Option<usize>)
    requires
        t@.len() + 8 <= usize::MAX,
        i <= t@.len(),
    ensures
        pos(r) == literal_end(t@, i as int),
        r matches Some(e) ==> e <= t@.len(),
{
    if byte_is(t, i, 0x6e) && byte_is(t, i + 1, 0x75) && byte_is(t, i + 2, 0x6c) && byte_is(t, i + 3, 0x6c) {
        Some(i + 4)
    } else if byte_is(t, i, 0x74) && byte_is(t, i + 1, 0x72) && byte_is(t, i + 2, 0x75) && byte_is(t, i + 3, 0x65) {
        Some(i + 4)
    } else if byte_is(t, i, 0x66) && byte_is(t, i + 1, 0x61) && byte_is(t, i + 2, 0x6c) && byte_is(t, i + 3, 0x73)
        && byte_is(t, i + 4, 0x65) {
        Some(i + 5)
    } else {
        None
    }
}

fn value_end_of(t: &[u8], i: usize) -> (r: Option<usize>)
    requires
        t@.len() + 8 <= usize::MAX,
        i <= t@.len(),
    ensures
        pos(r) == value_end(t@, i as int),
        r matches Some(e) ==> e <= t@.len(),
    decreases t@.len() - i, 0int,
{
    if i >= t.len() {
        return None;
    }
    let b: u8 = t[i];
    if b == 0x22 {
        match string_of(t, i) {
            Some((_, e)) => Some(e),
            None => None,
        }
    } else if b == 0x5b {
        elements_end_of(t, i + 1)
    } else if b == 0x7b {
        members_end_of(t, i + 1)
    } else if b == 0x2d || (0x30 <= b && b <= 0x39) {
        number_end_of(t, i)
    } else {
        literal_end_of(t, i)
    }
}

fn elements_end_of(t: &[u8], i: usize) -> (r: Option<usize>)
    requires
        t@.len() + 8 <= usize::MAX,
        i <= t@.len(),
    ensures
        pos(r) == elements_end(t@, i as int),
        r matches Some(e) ==> e <= t@.len(),
    decreases t@.len() - i, 2int,
{
    let j = skip_ws_of(t, i);
    if byte_is(t, j, 0x5d) {
        Some(j + 1)
    } else {
        elements_from_of(t, j)
    }
}

fn elements_from_of(t: &[u8], j: usize) -> (r: Option<usize>)
    requires
        t@.len() + 8 <= usize::MAX,
        j <= t@.len(),
    ensures
        pos(r) == elements_from(t@, j as int),
        r matches Some(e) ==> e <= t@.len(),
    decreases t@.len() - j, 1int,
{
    if j >= t.len() {
        return None;
    }
    match value_end_of(t, j) {
        None => None,
        Some(k) => {
            let m = skip_ws_of(t, k);
            if k <= j {
                None
            } else if byte_is(t, m, 0x2c) {
                let n = skip_ws_of(t, m + 1);
                elements_from_of(t, n)
            } else if byte_is(t, m, 0x5d) {
                Some(m + 1)
            } else {
                None
            }
        },
    }
}

fn members_end_of(t: &[u8], i: usize) -> (r: Option<usize>)
    requires
        t@.len() + 8 <= usize::MAX,
        i <= t@.len(),
    ensures
        pos(r) == members_end(t@, i as int),
        r matches Some(e) ==> e <= t@.len(),
    decreases t@.len() - i, 2int,
{
    let j = skip_ws_of(t, i);
    if byte_is(t, j, 0x7d) {
        Some(j + 1)
    } else {
        members_from_of(t, j)
    }
}

fn member_head_of(t: &[u8], j: usize) -> (r: Option<(Vec<u32>, usize)>)
    requires
        t@.len() + 8 <= usize::MAX,
        j <= t@.len(),
    ensures
        match r {
            Some((name, n)) => member_head(t@, j as int) == Some((name@, n as int)) && n <= t@.len(),
            None => member_head(t@, j as int) is None,
        },
{
    match string_of(t, j) {
        None => None,
        Some((name, k)) => {
            let m = skip_ws_of(t, k);
            if byte_is(t, m, 0x3a) {
                let n = skip_ws_of(t, m + 1);
                Some((name, n))
            } else {
                None
            }
        },
    }
}

fn members_from_of(t: &[u8], j: usize) -> (r: Option<usize>)
    requires
        t@.len() + 8 <= usize::MAX,
        j <= t@.len(),
    ensures
        pos(r) == members_from(t@, j as int),
        r matches Some(e) ==> e <= t@.len(),
    decreases t@.len() - j, 1int,
{
    if j >= t.len() {
        return None;
    }
    match member_head_of(t, j) {
        None => None,
        Some((_, n)) => {
            if n <= j {
                return None;
            }
            match value_end_of(t, n) {
                None => None,
                Some(e) => {
                    let p = skip_ws_of(t, e);
                    if e <= n {
                        None
                    } else if byte_is(t, p, 0x2c) {
                        let q = skip_ws_of(t, p + 1);
                        members_from_of(t, q)
                    } else if byte_is(t, p, 0x7d) {
                        Some(p + 1)
                    } else {
                        None
                    }
                },
            }
        },
    }
}

fn units_eq(a: &Vec<u32>, b: &Vec<u32>) -> (r: bool)
    ensures
        r == (a@ == b@),
{
    if a.len() != b.len() {
        return false;
    }
    let mut k: usize = 0;
    while k < a.len()
        invariant
            a@.len() == b@.len(),
            k <= a@.len(),
            forall|x: int| 0 <= x < k ==> a@[x] == b@[x],
        decreases a@.len() - k,
    {
        if a[k] != b[k] {
            return false;
        }
        k = k + 1;
    }
    assert(a@ =~= b@);
    true
}

fn lookup_from_of(t: &[u8], j: usize, name: &Vec<u32>, found: Option<usize>) -> (r: Option<usize>)
    requires
        t@.len() + 8 <= usize::MAX,
        j <= t@.len(),
        found matches Some(f) ==> f <= t@.len(),
    ensures
        pos(r) == lookup_from(t@, j as int, name@, pos(found)),
        r matches Some(e) ==> e <= t@.len(),
    decreases t@.len() - j,
{
    if j >= t.len() {
        return found;
    }
    match member_head_of(t, j) {
        None => found,
        Some((key, n)) => {
            let seen: Option<usize> = if units_eq(&key, name) { Some(n) } else { found };
            if n <= j {
                return seen;
            }
            match value_end_of(t, n) {
                None => seen,
                Some(e) => {
                    let p = skip_ws_of(t, e);
                    if e <= n {
                        seen
                    } else if byte_is(t, p, 0x2c) {
                        let q = skip_ws_of(t, p + 1);
                        lookup_from_of(t, q, name, seen)
                    } else {
                        seen
                    }
                },
            }
        },
    }
}

fn member_of_at(t: &[u8], i: usize, name: &Vec<u32>) -> (r: Option<usize>)
    requires
        t@.len() + 8 <= usize::MAX,
        i <= t@.len(),
    ensures
        pos(r) == member_of(t@, i as int, name@),
        r matches Some(e) ==> e <= t@.len(),
{
    if byte_is(t, i, 0x7b) {
        let j = skip_ws_of(t, i + 1);
        if byte_is(t, j, 0x7d) {
            None
        } else {
            lookup_from_of(t, j, name, None)
        }
    } else {
        None
    }
}

/// A position sequence read as an integer one.
pub open spec fn positions(v: Seq<usize>) -> Seq<int> {
    v.map_values(|p: usize| p as int)
}

fn items_from_of(t: &[u8], j: usize, acc: &mut Vec<usize>)
    requires
        t@.len() + 8 <= usize::MAX,
        j <= t@.len(),
        forall|x: int| 0 <= x < old(acc)@.len() ==> old(acc)@[x] <= t@.len(),
    ensures
        positions(final(acc)@) == items_from(t@, j as int, positions(old(acc)@)),
        forall|x: int| 0 <= x < final(acc)@.len() ==> final(acc)@[x] <= t@.len(),
    decreases t@.len() - j,
{
    if j >= t.len() {
        return;
    }
    let ghost before = positions(acc@);
    acc.push(j);
    assert(positions(acc@) =~= before.push(j as int));
    match value_end_of(t, j) {
        None => {},
        Some(k) => {
            let m = skip_ws_of(t, k);
            if k <= j {
            } else if byte_is(t, m, 0x2c) {
                let n = skip_ws_of(t, m + 1);
                items_from_of(t, n, acc);
            }
        },
    }
}

fn items_of_at(t: &[u8], i: usize) -> (r: Option<Vec<usize>>)
    requires
        t@.len() + 8 <= usize::MAX,
        i <= t@.len(),
    ensures
        match r {
            Some(v) => items_of(t@, i as int) == Some(positions(v@)) && forall|x: int|
                0 <= x < v@.len() ==> v@[x] <= t@.len(),
            None => items_of(t@, i as int) is None,
        },
{
    if byte_is(t, i, 0x5b) {
        let j = skip_ws_of(t, i + 1);
        let mut v: Vec<usize> = Vec::new();
        assert(positions(v@) =~= Seq::<int>::empty());
        if !byte_is(t, j, 0x5d) {
            items_from_of(t, j, &mut v);
        }
        Some(v)
    } else {
        None
    }
}

fn lower_hex_of(u: u32) -> (r: Option<u8>)
    ensures
        r == lower_hex(u),
{
    if 0x30 <= u && u <= 0x39 {
        Some((u - 0x30) as u8)
    } else if 0x61 <= u && u <= 0x66 {
        Some((u - 0x61 + 10) as u8)
    } else {
        None
    }
}

fn digest_of(units: &Vec<u32>) -> (r: Option<Vec<u8>>)
    ensures
        match r {
            Some(d) => digest_from(units@, 0, Seq::empty()) == Some(d@),
            None => digest_from(units@, 0, Seq::empty()) is None,
        },
{
    if units.len() != 64 {
        return None;
    }
    let mut acc: Vec<u8> = Vec::new();
    let mut k: usize = 0;
    while k < 32
        invariant
            units@.len() == 64,
            k <= 32,
            digest_from(units@, k as int, acc@) == digest_from(units@, 0, Seq::empty()),
        decreases 32 - k,
    {
        match (lower_hex_of(units[2 * k]), lower_hex_of(units[2 * k + 1])) {
            (Some(h), Some(l)) => {
                assert(h < 16 && l < 16);
                acc.push(h * 16 + l);
            },
            _ => return None,
        }
        k = k + 1;
    }
    Some(acc)
}

fn side_reference_of(t: &[u8], entry: usize, side: &Vec<u32>, blob: &Vec<u32>) -> (r: Result<Option<Vec<u8>>, ()>)
    requires
        t@.len() + 8 <= usize::MAX,
        entry <= t@.len(),
        blob@ == blob_name(),
    ensures
        match r {
            Ok(Some(d)) => side_reference(t@, entry as int, side@) == Ok::<Option<Seq<u8>>, ()>(Some(d@)),
            Ok(None) => side_reference(t@, entry as int, side@) == Ok::<Option<Seq<u8>>, ()>(None),
            Err(_) => side_reference(t@, entry as int, side@) is Err,
        },
{
    match member_of_at(t, entry, side) {
        None => Ok(None),
        Some(state) => match member_of_at(t, state, blob) {
            None => Ok(None),
            Some(b) => match string_of(t, b) {
                None => Ok(None),
                Some((units, _)) => match digest_of(&units) {
                    Some(d) => Ok(Some(d)),
                    None => Err(()),
                },
            },
        },
    }
}

/// Appends entry `e`'s references to `refs`, as `entry_references` states;
/// `false` when a blob string is not a digest.
fn entry_references_of(
    t: &[u8],
    e: usize,
    before: &Vec<u32>,
    after: &Vec<u32>,
    blob: &Vec<u32>,
    refs: &mut Vec<Vec<u8>>,
    Ghost(acc): Ghost<Seq<Seq<u8>>>,
) -> (ok: bool)
    requires
        t@.len() + 8 <= usize::MAX,
        e <= t@.len(),
        before@ == before_name(),
        after@ == after_name(),
        blob@ == blob_name(),
        old(refs)@.len() == acc.len(),
        forall|x: int| 0 <= x < acc.len() ==> #[trigger] acc[x] == old(refs)@[x]@,
    ensures
        ok == (entry_references(t@, e as int, acc) is Some),
        ok ==> ({
            let next = entry_references(t@, e as int, acc)->Some_0;
            &&& final(refs)@.len() == next.len()
            &&& forall|x: int| 0 <= x < next.len() ==> #[trigger] next[x] == final(refs)@[x]@
        }),
{
    reveal(entry_references);
    let ghost mut cur = acc;
    match side_reference_of(t, e, before, blob) {
        Err(_) => return false,
        Ok(Some(d)) => {
            proof {
                cur = cur.push(d@);
            }
            refs.push(d);
        },
        Ok(None) => {},
    }
    match side_reference_of(t, e, after, blob) {
        Err(_) => return false,
        Ok(Some(d)) => {
            proof {
                cur = cur.push(d@);
            }
            refs.push(d);
        },
        Ok(None) => {},
    }
    assert(entry_references(t@, e as int, acc) == Some(cur));
    true
}

/// Reads every payload digest the manifest `t` references, as
/// `manifest_references` states it.
pub fn manifest_references_of(t: &[u8]) -> (r: Option<Vec<Vec<u8>>>)
    ensures
        match r {
            Some(refs) => manifest_references(t@) matches Some(m) && m.len() == refs@.len() && forall|k: int|
                0 <= k < m.len() ==> #[trigger] m[k] == refs@[k]@,
            None => manifest_references(t@) is None,
        },
{
    if t.len() > usize::MAX - 8 {
        return None;
    }
    let start = skip_ws_of(t, 0);
    let e: usize = match value_end_of(t, start) {
        None => return None,
        Some(e) => e,
    };
    if skip_ws_of(t, e) != t.len() {
        return None;
    }
    let entries: Vec<u32> = vec![0x65u32, 0x6e, 0x74, 0x72, 0x69, 0x65, 0x73];
    let before: Vec<u32> = vec![0x62u32, 0x65, 0x66, 0x6f, 0x72, 0x65];
    let after: Vec<u32> = vec![0x61u32, 0x66, 0x74, 0x65, 0x72];
    let blob: Vec<u32> = vec![0x62u32, 0x6c, 0x6f, 0x62];
    assert(entries@ =~= entries_name());
    assert(before@ =~= before_name());
    assert(after@ =~= after_name());
    assert(blob@ =~= blob_name());
    let p: usize = match member_of_at(t, start, &entries) {
        None => return None,
        Some(p) => p,
    };
    let items: Vec<usize> = match items_of_at(t, p) {
        None => return None,
        Some(v) => v,
    };
    let ghost m = positions(items@);
    assert(manifest_references(t@) == references_from(t@, m, 0, Seq::empty()));
    let mut refs: Vec<Vec<u8>> = Vec::new();
    let ghost mut acc: Seq<Seq<u8>> = Seq::empty();
    let mut k: usize = 0;
    while k < items.len()
        invariant
            t@.len() + 8 <= usize::MAX,
            k <= items@.len(),
            m == positions(items@),
            forall|x: int| 0 <= x < items@.len() ==> items@[x] <= t@.len(),
            blob@ == blob_name(),
            before@ == before_name(),
            after@ == after_name(),
            refs@.len() == acc.len(),
            forall|x: int| 0 <= x < acc.len() ==> #[trigger] acc[x] == refs@[x]@,
            references_from(t@, m, k as int, acc) == references_from(t@, m, 0, Seq::empty()),
            manifest_references(t@) == references_from(t@, m, 0, Seq::empty()),
        decreases items@.len() - k,
    {
        assert(m[k as int] == items@[k as int] as int);
        let ghost prior = acc;
        if !entry_references_of(t, items[k], &before, &after, &blob, &mut refs, Ghost(prior)) {
            assert(references_from(t@, m, k as int, prior) is None);
            return None;
        }
        proof {
            acc = entry_references(t@, m[k as int], prior)->Some_0;
        }
        k = k + 1;
    }
    Some(refs)
}

} // verus!
