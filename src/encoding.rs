//! Text building blocks of the canonical form: upper-case hex, JSON string
//! literals, decimal integers and RFC 3339 timestamps.

use vstd::prelude::*;

verus! {

/// The largest distance from the Unix epoch, in seconds, of a timestamp that
/// the canonical form accepts (about 253,000 years either way).
pub const TIMESTAMP_LIMIT: i64 = 8_000_000_000_000;

/// The upper-case hexadecimal digit of a nibble.
pub open spec fn upper_digit(n: int) -> char {
    seq!['0', '1', '2', '3', '4', '5', '6', '7', '8', '9', 'A', 'B', 'C', 'D', 'E', 'F'][n]
}

/// The lower-case hexadecimal digit of a nibble.
pub open spec fn lower_digit(n: int) -> char {
    seq!['0', '1', '2', '3', '4', '5', '6', '7', '8', '9', 'a', 'b', 'c', 'd', 'e', 'f'][n]
}

/// Upper-case hexadecimal text of a byte string: two digits per byte, high
/// nibble first.
pub open spec fn hex_upper_text(b: Seq<u8>) -> Seq<char>
    decreases b.len(),
{
    if b.len() == 0 {
        Seq::empty()
    } else {
        hex_upper_text(b.drop_last()) + seq![
            upper_digit(b.last() as int / 16),
            upper_digit(b.last() as int % 16),
        ]
    }
}

/// How one character is written inside a JSON string literal: quote and
/// backslash are escaped, the five named control characters take their short
/// escape, the other control characters below 0x20 a `\u00xx` escape, and
/// every other character stands for itself.
pub open spec fn json_escaped_char(c: char) -> Seq<char> {
    if c == '"' {
        seq!['\\', '"']
    } else if c == '\\' {
        seq!['\\', '\\']
    } else if c == '\x08' {
        seq!['\\', 'b']
    } else if c == '\t' {
        seq!['\\', 't']
    } else if c == '\n' {
        seq!['\\', 'n']
    } else if c == '\x0C' {
        seq!['\\', 'f']
    } else if c == '\r' {
        seq!['\\', 'r']
    } else if (c as u32) < 0x20 {
        seq!['\\', 'u', '0', '0', lower_digit((c as u32) as int / 16), lower_digit((c as u32) as int % 16)]
    } else {
        seq![c]
    }
}

/// The escaped characters of a JSON string literal, without the quotes.
pub open spec fn json_escaped(s: Seq<char>) -> Seq<char>
    decreases s.len(),
{
    if s.len() == 0 {
        Seq::empty()
    } else {
        json_escaped(s.drop_last()) + json_escaped_char(s.last())
    }
}

/// A JSON string literal holding `s`.
pub open spec fn json_quoted(s: Seq<char>) -> Seq<char> {
    seq!['"'] + json_escaped(s) + seq!['"']
}

/// The decimal digit of a number below ten.
pub open spec fn decimal_digit(n: nat) -> char {
    seq!['0', '1', '2', '3', '4', '5', '6', '7', '8', '9'][n as int]
}

/// Decimal text of a natural number, without leading zeros.
pub open spec fn nat_text(n: nat) -> Seq<char>
    decreases n,
{
    if n < 10 {
        seq![decimal_digit(n)]
    } else {
        nat_text(n / 10) + seq![decimal_digit(n % 10)]
    }
}

/// Decimal text of an integer, with a leading minus sign when negative.
pub open spec fn decimal_text(n: int) -> Seq<char> {
    if n < 0 {
        seq!['-'] + nat_text((-n) as nat)
    } else {
        nat_text(n as nat)
    }
}

/// The RFC 3339 text, in UTC with a `+00:00` offset, of the instant `secs`
/// seconds and `nanos` nanoseconds after the Unix epoch; the fraction of a
/// second is written with as few of three, six or nine digits as keep it exact.
pub uninterp spec fn rfc3339_utc(secs: int, nanos: int) -> Seq<char>;

/// Upper-case hex digits are the ASCII codes 48..57 and 65..70.
proof fn lemma_upper_digit_code(n: int)
    requires
        0 <= n < 16,
    ensures
        upper_digit(n) as u32 == if n < 10 { 48 + n } else { 55 + n },
{
    let d = seq!['0', '1', '2', '3', '4', '5', '6', '7', '8', '9', 'A', 'B', 'C', 'D', 'E', 'F'];
    assert(d[0] == '0' && d[1] == '1' && d[2] == '2' && d[3] == '3' && d[4] == '4');
    assert(d[5] == '5' && d[6] == '6' && d[7] == '7' && d[8] == '8' && d[9] == '9');
    assert(d[10] == 'A' && d[11] == 'B' && d[12] == 'C' && d[13] == 'D' && d[14] == 'E' && d[15] == 'F');
}

/// Hex text is two characters per byte, each an upper-case hex digit.
pub proof fn lemma_hex_text_shape(b: Seq<u8>)
    ensures
        hex_upper_text(b).len() == 2 * b.len(),
        forall|i: int| 0 <= i < hex_upper_text(b).len() ==> {
            let c = #[trigger] hex_upper_text(b)[i] as u32;
            (48 <= c <= 57) || (65 <= c <= 70)
        },
    decreases b.len(),
{
    if b.len() > 0 {
        lemma_hex_text_shape(b.drop_last());
        lemma_upper_digit_code(b.last() as int / 16);
        lemma_upper_digit_code(b.last() as int % 16);
        let h = hex_upper_text(b);
        let p = hex_upper_text(b.drop_last());
        assert forall|i: int| 0 <= i < h.len() implies {
            let c = #[trigger] h[i] as u32;
            (48 <= c <= 57) || (65 <= c <= 70)
        } by {
            if i < p.len() {
                assert(h[i] == p[i]);
            }
        }
    }
}

/// Different byte strings have different hex text.
pub proof fn lemma_hex_text_injective(b1: Seq<u8>, b2: Seq<u8>)
    requires
        hex_upper_text(b1) == hex_upper_text(b2),
    ensures
        b1 == b2,
    decreases b1.len(),
{
    lemma_hex_text_shape(b1);
    lemma_hex_text_shape(b2);
    if b1.len() > 0 {
        let h = hex_upper_text(b1);
        let n = h.len();
        let p1 = hex_upper_text(b1.drop_last());
        let p2 = hex_upper_text(b2.drop_last());
        lemma_hex_text_shape(b1.drop_last());
        lemma_hex_text_shape(b2.drop_last());
        assert(p1 =~= h.subrange(0, n - 2));
        assert(p2 =~= hex_upper_text(b2).subrange(0, n - 2));
        lemma_hex_text_injective(b1.drop_last(), b2.drop_last());
        let x = b1.last() as int;
        let y = b2.last() as int;
        assert(h[n - 2] == upper_digit(x / 16) && h[n - 1] == upper_digit(x % 16));
        assert(hex_upper_text(b2)[n - 2] == upper_digit(y / 16) && hex_upper_text(b2)[n - 1] == upper_digit(y % 16));
        lemma_upper_digit_code(x / 16);
        lemma_upper_digit_code(x % 16);
        lemma_upper_digit_code(y / 16);
        lemma_upper_digit_code(y % 16);
        assert(x / 16 == y / 16 && x % 16 == y % 16);
        assert(x == y);
        assert(b1 =~= b1.drop_last().push(b1.last()));
        assert(b2 =~= b2.drop_last().push(b2.last()));
    }
}

/// Decimal digits are the ASCII codes 48..57.
proof fn lemma_decimal_digit_code(n: nat)
    requires
        n < 10,
    ensures
        decimal_digit(n) as u32 == 48 + n,
{
    let d = seq!['0', '1', '2', '3', '4', '5', '6', '7', '8', '9'];
    assert(d[0] == '0' && d[1] == '1' && d[2] == '2' && d[3] == '3' && d[4] == '4');
    assert(d[5] == '5' && d[6] == '6' && d[7] == '7' && d[8] == '8' && d[9] == '9');
}

/// Decimal text of a natural number is a non-empty run of digits.
pub proof fn lemma_nat_text_shape(n: nat)
    ensures
        nat_text(n).len() >= 1,
        n < 10 ==> nat_text(n).len() == 1,
        n >= 10 ==> nat_text(n).len() >= 2,
        forall|i: int| 0 <= i < nat_text(n).len() ==> 48 <= (#[trigger] nat_text(n)[i]) as u32 <= 57,
    decreases n,
{
    if n < 10 {
        lemma_decimal_digit_code(n);
    } else {
        lemma_nat_text_shape(n / 10);
        lemma_decimal_digit_code(n % 10);
        let t = nat_text(n);
        let p = nat_text(n / 10);
        assert forall|i: int| 0 <= i < t.len() implies 48 <= (#[trigger] t[i]) as u32 <= 57 by {
            if i < p.len() {
                assert(t[i] == p[i]);
            }
        }
    }
}

/// Different natural numbers have different decimal text.
proof fn lemma_nat_text_injective(a: nat, b: nat)
    requires
        nat_text(a) == nat_text(b),
    ensures
        a == b,
    decreases a,
{
    lemma_nat_text_shape(a);
    lemma_nat_text_shape(b);
    if a < 10 && b < 10 {
        lemma_decimal_digit_code(a);
        lemma_decimal_digit_code(b);
        assert(nat_text(a)[0] == decimal_digit(a));
        assert(nat_text(b)[0] == decimal_digit(b));
        assert(decimal_digit(a) as u32 == decimal_digit(b) as u32);
    } else if a >= 10 && b >= 10 {
        let t = nat_text(a);
        let n = t.len();
        lemma_nat_text_shape(a / 10);
        assert(nat_text(a / 10) =~= t.subrange(0, n - 1));
        assert(nat_text(b / 10) =~= nat_text(b).subrange(0, n - 1));
        lemma_nat_text_injective(a / 10, b / 10);
        lemma_decimal_digit_code(a % 10);
        lemma_decimal_digit_code(b % 10);
        assert(t[n - 1] == decimal_digit(a % 10));
        assert(nat_text(b)[n - 1] == decimal_digit(b % 10));
        assert(a % 10 == b % 10);
        assert(a == 10 * (a / 10) + a % 10);
        assert(b == 10 * (b / 10) + b % 10);
    }
}

/// Decimal text of an integer: non-empty, a minus sign only first, digits
/// after it; different integers have different text.
pub proof fn lemma_decimal_text_injective(a: int, b: int)
    ensures
        decimal_text(a).len() >= 1,
        forall|i: int| 0 < i < decimal_text(a).len() ==> 48 <= (#[trigger] decimal_text(a)[i]) as u32 <= 57,
        decimal_text(a)[0] == '-' || 48 <= decimal_text(a)[0] as u32 <= 57,
        decimal_text(a) == decimal_text(b) ==> a == b,
{
    let na: nat = if a < 0 { (-a) as nat } else { a as nat };
    let nb: nat = if b < 0 { (-b) as nat } else { b as nat };
    lemma_nat_text_shape(na);
    lemma_nat_text_shape(nb);
    let da = decimal_text(a);
    if a < 0 {
        assert forall|i: int| 0 < i < da.len() implies 48 <= (#[trigger] da[i]) as u32 <= 57 by {
            assert(da[i] == nat_text(na)[i - 1]);
        }
    }
    if da == decimal_text(b) {
        if a < 0 && b < 0 {
            assert(nat_text(na) =~= da.subrange(1, da.len() as int));
            assert(nat_text(nb) =~= decimal_text(b).subrange(1, da.len() as int));
            lemma_nat_text_injective(na, nb);
        } else if a >= 0 && b >= 0 {
            lemma_nat_text_injective(na, nb);
        } else if a < 0 {
            assert(decimal_text(b)[0] as u32 >= 48);
        } else {
            assert(da[0] as u32 >= 48);
        }
    }
}

/// Text of characters from 0x20 up that are neither quote nor backslash is
/// written unchanged inside a JSON string literal.
pub proof fn lemma_json_escaped_plain(s: Seq<char>)
    requires
        forall|i: int| 0 <= i < s.len() ==> (#[trigger] s[i] as u32) >= 0x20 && s[i] != '"' && s[i] != '\\',
    ensures
        json_escaped(s) == s,
    decreases s.len(),
{
    if s.len() > 0 {
        lemma_json_escaped_plain(s.drop_last());
        assert(s.drop_last().push(s.last()) =~= s);
        assert(s[s.len() - 1] as u32 >= 0x20);
    }
}

/// Relies on `subtle_encoding::hex::encode_upper`: two upper-case hex digits
/// per byte, high nibble first. Its output is ASCII, so reading it as UTF-8
/// keeps every byte.
#[verifier::external_body]
pub(crate) fn hex_upper(b: &Vec<u8>) -> (r: String)
    ensures
        r@ == hex_upper_text(b@),
{
    String::from_utf8_lossy(&subtle_encoding::hex::encode_upper(b)).into_owned()
}

/// Relies on `serde_json::Value::String` and its compact `Display`: the string
/// between quotes, escaped by serde_json's escape table.
#[verifier::external_body]
pub(crate) fn json_string(s: &str) -> (r: String)
    ensures
        r@ == json_quoted(s@),
{
    serde_json::Value::from(s).to_string()
}

/// Relies on `serde_json::Value::from(i64)` and its compact `Display`: the
/// integer in decimal.
#[verifier::external_body]
pub(crate) fn json_integer(n: i64) -> (r: String)
    ensures
        r@ == decimal_text(n as int),
{
    serde_json::Value::from(n).to_string()
}

/// Relies on `chrono::DateTime::<Utc>::from_timestamp`, which yields an instant
/// whenever the nanoseconds are below one second and the day lies within
/// chrono's years -262143 to 262142, and on `DateTime::to_rfc3339` for its text.
#[verifier::external_body]
pub(crate) fn rfc3339_text(secs: i64, nanos: u32) -> (r: Option<String>)
    ensures
        r matches Some(s) ==> s@ == rfc3339_utc(secs as int, nanos as int),
        (-TIMESTAMP_LIMIT <= secs <= TIMESTAMP_LIMIT && nanos < 1_000_000_000) ==> r is Some,
{
    match chrono::DateTime::<chrono::Utc>::from_timestamp(secs, nanos) {
        Some(t) => Some(t.to_rfc3339()),
        None => None,
    }
}

} // verus!
