//! Text primitives the store's identities and wire forms are built from:
//! exact equality of borrowed text, decimal integer spelling and parsing,
//! and lowercase hexadecimal spelling.

use vstd::prelude::*;

verus! {

/// Exact equality of two borrowed strings, by their characters.
pub fn str_eq(a: &str, b: &str) -> (r: bool)
    ensures
        r == (a@ == b@),
{
    let owned_a: String = a.to_owned();
    let owned_b: String = b.to_owned();
    owned_a == owned_b
}

/// An equal copy of optional text.
pub(crate) fn copy_text_option(o: &Option<String>) -> (r: Option<String>)
    ensures
        r == *o,
{
    match o {
        Some(s) => Some(s.clone()),
        None => None,
    }
}

/// Exact equality of two byte sequences.
pub fn bytes_eq(a: &[u8], b: &[u8]) -> (r: bool)
    ensures
        r == (a@ == b@),
{
    if a.len() != b.len() {
        return false;
    }
    let mut i: usize = 0;
    while i < a.len()
        invariant
            a@.len() == b@.len(),
            i <= a@.len(),
            forall|j: int| 0 <= j < i ==> a@[j] == b@[j],
        decreases a@.len() - i,
    {
        if a[i] != b[i] {
            return false;
        }
        i = i + 1;
    }
    assert(a@ =~= b@);
    true
}

/// The character spelling one decimal digit.
pub open spec fn digit_char(d: int) -> char {
    if d == 0 {
        '0'
    } else if d == 1 {
        '1'
    } else if d == 2 {
        '2'
    } else if d == 3 {
        '3'
    } else if d == 4 {
        '4'
    } else if d == 5 {
        '5'
    } else if d == 6 {
        '6'
    } else if d == 7 {
        '7'
    } else if d == 8 {
        '8'
    } else {
        '9'
    }
}

/// Whether `c` is an ASCII decimal digit.
pub open spec fn is_digit(c: char) -> bool {
    '0' <= c && c <= '9'
}

/// The value of one ASCII decimal digit.
pub open spec fn digit_value(c: char) -> int {
    (c as int) - ('0' as int)
}

/// Every character of `s` is an ASCII decimal digit.
pub open spec fn all_digits(s: Seq<char>) -> bool {
    forall|i: int| 0 <= i < s.len() ==> is_digit(#[trigger] s[i])
}

/// The value of a string of decimal digits, most significant first.
pub open spec fn digits_value(s: Seq<char>) -> int
    decreases s.len(),
{
    if s.len() == 0 {
        0
    } else {
        digits_value(s.drop_last()) * 10 + digit_value(s.last())
    }
}

/// The canonical decimal spelling of a natural number: no leading zeros,
/// and `"0"` for zero.
pub open spec fn nat_text(n: nat) -> Seq<char>
    decreases n,
{
    if n < 10 {
        seq![digit_char(n as int)]
    } else {
        nat_text(n / 10).push(digit_char((n % 10) as int))
    }
}

/// The canonical decimal spelling of an integer, `-` first when negative.
pub open spec fn int_text(n: int) -> Seq<char> {
    if n < 0 {
        seq!['-'] + nat_text((-n) as nat)
    } else {
        nat_text(n as nat)
    }
}

/// The value of a decimal integer in the accepted syntax: an optional `+`
/// or `-` sign followed by at least one ASCII digit, with no other
/// characters, and a value that fits in an `i64`.
pub open spec fn parse_int_spec(s: Seq<char>) -> Option<int> {
    let negative = s.len() > 0 && s[0] == '-';
    let signed = s.len() > 0 && (s[0] == '-' || s[0] == '+');
    let body = if signed {
        s.subrange(1, s.len() as int)
    } else {
        s
    };
    let magnitude = digits_value(body);
    let value = if negative {
        -magnitude
    } else {
        magnitude
    };
    if body.len() > 0 && all_digits(body) && i64::MIN <= value <= i64::MAX {
        Some(value)
    } else {
        None
    }
}

proof fn lemma_digit_char(d: int)
    requires
        0 <= d < 10,
    ensures
        is_digit(digit_char(d)),
        digit_value(digit_char(d)) == d,
{
}

proof fn lemma_nat_text(n: nat)
    ensures
        nat_text(n).len() > 0,
        all_digits(nat_text(n)),
        digits_value(nat_text(n)) == n,
        nat_text(n)[0] != '-' && nat_text(n)[0] != '+' && nat_text(n)[0] != ':',
    decreases n,
{
    if n < 10 {
        lemma_digit_char(n as int);
        let s = nat_text(n);
        assert(s.drop_last() =~= Seq::<char>::empty());
        assert(digits_value(s) == digits_value(s.drop_last()) * 10 + digit_value(s.last()));
    } else {
        lemma_nat_text(n / 10);
        lemma_digit_char((n % 10) as int);
        let s = nat_text(n);
        assert(s.drop_last() =~= nat_text(n / 10));
        assert(s.last() == digit_char((n % 10) as int));
        assert(n == (n / 10) * 10 + n % 10) by (nonlinear_arith);
        assert(digits_value(s) == digits_value(nat_text(n / 10)) * 10 + digit_value(s.last()));
        assert forall|i: int| 0 <= i < s.len() implies is_digit(#[trigger] s[i]) by {
            if i < s.len() - 1 {
                assert(s[i] == nat_text(n / 10)[i]);
            }
        }
    }
}

/// Parsing the canonical spelling of any `i64` gives back that value.
pub proof fn lemma_parse_int_text(n: i64)
    ensures
        parse_int_spec(int_text(n as int)) == Some(n as int),
        int_text(n as int).len() > 0,
        !int_text(n as int).contains(':'),
{
    if n < 0 {
        let m: nat = (-(n as int)) as nat;
        lemma_nat_text(m);
        let s = int_text(n as int);
        assert(s.subrange(1, s.len() as int) =~= nat_text(m));
        assert forall|i: int| 0 <= i < s.len() implies s[i] != ':' by {
            if i > 0 {
                assert(s[i] == nat_text(m)[i - 1]);
                assert(is_digit(nat_text(m)[i - 1]));
            }
        }
    } else {
        lemma_nat_text(n as nat);
        let s = int_text(n as int);
        assert forall|i: int| 0 <= i < s.len() implies s[i] != ':' by {
            assert(is_digit(s[i]));
        }
    }
}

/// The character for one decimal digit, as text.
fn digit_str(d: u64) -> (s: &'static str)
    requires
        d < 10,
    ensures
        s@ == seq![digit_char(d as int)],
{
    proof {
        reveal_strlit("0");
        reveal_strlit("1");
        reveal_strlit("2");
        reveal_strlit("3");
        reveal_strlit("4");
        reveal_strlit("5");
        reveal_strlit("6");
        reveal_strlit("7");
        reveal_strlit("8");
        reveal_strlit("9");
    }
    if d == 0 {
        "0"
    } else if d == 1 {
        "1"
    } else if d == 2 {
        "2"
    } else if d == 3 {
        "3"
    } else if d == 4 {
        "4"
    } else if d == 5 {
        "5"
    } else if d == 6 {
        "6"
    } else if d == 7 {
        "7"
    } else if d == 8 {
        "8"
    } else {
        "9"
    }
}

/// Spells a natural number in decimal.
fn nat_to_text(n: u64) -> (s: String)
    ensures
        s@ == nat_text(n as nat),
    decreases n,
{
    if n < 10 {
        let mut out: String = String::new();
        out.append(digit_str(n));
        assert(out@ =~= nat_text(n as nat));
        out
    } else {
        let mut out: String = nat_to_text(n / 10);
        out.append(digit_str(n % 10));
        assert(out@ =~= nat_text(n as nat));
        out
    }
}

/// Spells an `i64` in canonical decimal.
pub fn i64_to_text(n: i64) -> (s: String)
    ensures
        s@ == int_text(n as int),
{
    if n < 0 {
        let magnitude: u64 = if n == i64::MIN {
            0x8000_0000_0000_0000u64
        } else {
            (-n) as u64
        };
        let mut out: String = String::new();
        proof {
            reveal_strlit("-");
        }
        out.append("-");
        let digits: String = nat_to_text(magnitude);
        out.append(digits.as_str());
        assert(out@ =~= int_text(n as int));
        out
    } else {
        nat_to_text(n as u64)
    }
}

/// Parses a decimal `i64` in the syntax of [`parse_int_spec`].
pub fn parse_i64(text: &str) -> (r: Option<i64>)
    ensures
        match r {
            Some(v) => parse_int_spec(text@) == Some(v as int),
            None => parse_int_spec(text@) is None,
        },
{
    let s = Ghost(text@);
    let len: usize = text.unicode_len();
    if len == 0 {
        return None;
    }
    let first: char = text.get_char(0);
    let negative: bool = first == '-';
    let start: usize = if first == '-' || first == '+' {
        1
    } else {
        0
    };
    if start >= len {
        return None;
    }
    let ghost body = s@.subrange(start as int, len as int);
    assert(body =~= if s@.len() > 0 && (s@[0] == '-' || s@[0] == '+') {
        s@.subrange(1, s@.len() as int)
    } else {
        s@
    });
    // The magnitude, saturated just above the largest accepted one.
    let cap: u128 = 0x8000_0000_0000_0001u128;
    let mut acc: u128 = 0;
    let mut i: usize = start;
    while i < len
        invariant
            s@ == text@,
            len == text@.len(),
            start <= i <= len,
            body == s@.subrange(start as int, len as int),
            all_digits(body.subrange(0, i - start)),
            acc == if digits_value(body.subrange(0, i - start)) < cap {
                digits_value(body.subrange(0, i - start))
            } else {
                cap as int
            },
            digits_value(body.subrange(0, i - start)) >= 0,
            acc <= cap,
            cap == 0x8000_0000_0000_0001u128,
            body == if s@.len() > 0 && (s@[0] == '-' || s@[0] == '+') {
                s@.subrange(1, s@.len() as int)
            } else {
                s@
            },
            negative == (s@.len() > 0 && s@[0] == '-'),
        decreases len - i,
    {
        let c: char = text.get_char(i);
        if !('0' <= c && c <= '9') {
            assert(!all_digits(body)) by {
                assert(body[i - start] == c);
            }
            return None;
        }
        let d: u128 = (c as u32 - '0' as u32) as u128;
        let ghost prev = body.subrange(0, i - start);
        let ghost next = body.subrange(0, i - start + 1);
        assert(next.drop_last() =~= prev);
        assert(next.last() == c);
        let ghost v = digits_value(prev);
        assert(digits_value(next) == v * 10 + d);
        assert(all_digits(next)) by {
            assert forall|j: int| 0 <= j < next.len() implies is_digit(#[trigger] next[j]) by {
                if j < prev.len() {
                    assert(next[j] == prev[j]);
                }
            }
        }
        let scaled: u128 = acc * 10 + d;
        assert(v >= cap ==> v * 10 + d >= cap) by (nonlinear_arith)
            requires
                v >= 0,
                d >= 0,
        ;
        acc = if scaled < cap {
            scaled
        } else {
            cap
        };
        i = i + 1;
    }
    assert(body.subrange(0, len - start) =~= body);
    if negative {
        if acc > 0x8000_0000_0000_0000u128 {
            return None;
        }
        if acc == 0x8000_0000_0000_0000u128 {
            return Some(i64::MIN);
        }
        Some(-(acc as i64))
    } else {
        if acc > 0x7fff_ffff_ffff_ffffu128 {
            return None;
        }
        Some(acc as i64)
    }
}

/// The lowercase character spelling one hexadecimal digit.
pub open spec fn hex_char(d: int) -> char {
    if d < 10 {
        digit_char(d)
    } else if d == 10 {
        'a'
    } else if d == 11 {
        'b'
    } else if d == 12 {
        'c'
    } else if d == 13 {
        'd'
    } else if d == 14 {
        'e'
    } else {
        'f'
    }
}

/// The `i`-th most significant hexadecimal digit of a 64-bit value.
pub open spec fn hex_digit(value: u64, i: int) -> int {
    ((value >> ((60 - 4 * i) as u64)) & 0xf) as int
}

/// The sixteen lowercase hexadecimal digits of `value`, most significant
/// first: the spelling `{value:016x}`.
pub open spec fn hex16(value: u64) -> Seq<char> {
    Seq::new(16, |i: int| hex_char(hex_digit(value, i)))
}

/// The character for one hexadecimal digit, lowercase, as text.
fn hex_digit_str(d: u64) -> (s: &'static str)
    requires
        d < 16,
    ensures
        s@ == seq![hex_char(d as int)],
{
    proof {
        reveal_strlit("a");
        reveal_strlit("b");
        reveal_strlit("c");
        reveal_strlit("d");
        reveal_strlit("e");
        reveal_strlit("f");
    }
    if d < 10 {
        digit_str(d)
    } else if d == 10 {
        "a"
    } else if d == 11 {
        "b"
    } else if d == 12 {
        "c"
    } else if d == 13 {
        "d"
    } else if d == 14 {
        "e"
    } else {
        "f"
    }
}

/// Appends the sixteen lowercase hexadecimal digits of `value`, most
/// significant first, to `out`.
pub fn append_hex_u64(out: &mut String, value: u64)
    ensures
        final(out)@ == old(out)@ + hex16(value),
{
    let mut shift: u64 = 64;
    let mut k: u64 = 0;
    let ghost start = out@;
    while shift > 0
        invariant
            shift <= 64,
            k <= 16,
            shift == 64 - 4 * k,
            out@ == start + Seq::new(k as nat, |i: int| hex_char(hex_digit(value, i))),
        decreases shift,
    {
        shift = shift - 4;
        let d: u64 = (value >> shift) & 0xf;
        assert(d < 16) by (bit_vector)
            requires
                d == (value >> shift) & 0xf,
        ;
        assert(d as int == hex_digit(value, k as int));
        out.append(hex_digit_str(d));
        k = k + 1;
        assert(out@ =~= start + Seq::new(k as nat, |i: int| hex_char(hex_digit(value, i))));
    }
    assert(Seq::new(k as nat, |i: int| hex_char(hex_digit(value, i))) =~= hex16(value));
}

/// The lowercase hexadecimal spelling of a byte sequence, two digits per
/// byte, most significant digit first.
pub open spec fn bytes_hex(bytes: Seq<u8>) -> Seq<char>
    decreases bytes.len(),
{
    if bytes.len() == 0 {
        Seq::empty()
    } else {
        bytes_hex(bytes.drop_last()) + seq![hex_char(bytes.last() as int / 16), hex_char(bytes.last() as int % 16)]
    }
}

/// Spells a 32-byte digest in lowercase hexadecimal.
pub fn digest_hex(digest: &[u8; 32]) -> (s: String)
    ensures
        s@ == bytes_hex(digest@),
{
    let mut out: String = String::new();
    let mut i: usize = 0;
    while i < 32
        invariant
            i <= 32,
            digest@.len() == 32,
            out@ == bytes_hex(digest@.take(i as int)),
        decreases 32 - i,
    {
        let b: u8 = digest[i];
        let high: u64 = (b / 16) as u64;
        let low: u64 = (b % 16) as u64;
        out.append(hex_digit_str(high));
        out.append(hex_digit_str(low));
        proof {
            let t = digest@.take(i as int + 1);
            assert(t.drop_last() =~= digest@.take(i as int));
            assert(t.last() == b);
        }
        i = i + 1;
        assert(out@ =~= bytes_hex(digest@.take(i as int)));
    }
    assert(digest@.take(32) =~= digest@);
    out
}

} // verus!
