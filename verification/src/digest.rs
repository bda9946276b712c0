use vstd::prelude::*;

use md5::Digest;

use crate::text::{all_digits, is_digit};

verus! {

/// A lower-case hexadecimal digit for `n < 16`.
pub open spec fn hex_digit(n: u8) -> char {
    if n < 10 {
        ((n + 48) as u8) as char
    } else {
        ((n + 87) as u8) as char
    }
}

/// Each byte as two lower-case hexadecimal digits, high digit first.
pub open spec fn hex_lower(data: Seq<u8>) -> Seq<char>
    decreases data.len(),
{
    if data.len() == 0 {
        Seq::<char>::empty()
    } else {
        hex_lower(data.drop_last()) + seq![hex_digit(data.last() / 16), hex_digit(data.last() % 16)]
    }
}

/// The hyphenated lower-case form of a 16-byte UUID: groups of 4, 2, 2, 2
/// and 6 bytes in hexadecimal, joined by `-`.
pub open spec fn uuid_text(b: Seq<u8>) -> Seq<char> {
    hex_lower(b.subrange(0, 4)) + "-"@ + hex_lower(b.subrange(4, 6)) + "-"@ + hex_lower(
        b.subrange(6, 8),
    ) + "-"@ + hex_lower(b.subrange(8, 10)) + "-"@ + hex_lower(b.subrange(10, 16))
}

/// Whether `t` is the hyphenated form of a version-4 UUID: 16 bytes whose
/// version nibble is 4 and whose variant bits are `10`.
pub open spec fn is_v4_uuid_text(t: Seq<char>) -> bool {
    exists|b: Seq<u8>|
        b.len() == 16 && (b[6] & 0xf0) == 0x40 && (b[8] & 0xc0) == 0x80 && t == uuid_text(b)
}

/// The MD5 digest of `data`.
pub uninterp spec fn md5_digest(data: Seq<u8>) -> Seq<u8>;

/// The SHA-1 digest of `data`.
pub uninterp spec fn sha1_digest(data: Seq<u8>) -> Seq<u8>;

/// The MD5 digest of `data` (`md5::Md5`, through the `Digest` trait).
/// Claims: the result is the digest of exactly these bytes, and has 16
/// bytes, the output size of MD5.
#[verifier::external_body]
pub(crate) fn md5_bytes(data: &[u8]) -> (r: Vec<u8>)
    ensures
        r@ == md5_digest(data@),
        r@.len() == 16,
{
    let mut hasher = md5::Md5::new();
    hasher.update(data);
    hasher.finalize().to_vec()
}

/// The SHA-1 digest of `data` (`sha1::Sha1`, through the `Digest` trait).
/// Claims: the result is the digest of exactly these bytes, and has 20
/// bytes, the output size of SHA-1.
#[verifier::external_body]
pub(crate) fn sha1_bytes(data: &[u8]) -> (r: Vec<u8>)
    ensures
        r@ == sha1_digest(data@),
        r@.len() == 20,
{
    let mut hasher = sha1::Sha1::new();
    hasher.update(data);
    hasher.finalize().to_vec()
}

/// `hex::encode`. Claims what its source shows: each byte becomes two
/// characters of `0123456789abcdef`, high nibble first.
#[verifier::external_body]
pub(crate) fn hex_encode(data: &[u8]) -> (r: String)
    ensures
        r@ == hex_lower(data@),
{
    hex::encode(data)
}

/// `uuid::Uuid::from_bytes(..).hyphenated().to_string()`. Claims what its
/// source shows: the bytes in order, in lower-case hexadecimal, grouped
/// 8-4-4-4-12 with `-` between the groups.
#[verifier::external_body]
pub(crate) fn uuid_hyphenated(bytes: &[u8]) -> (r: String)
    requires
        bytes@.len() == 16,
    ensures
        r@ == uuid_text(bytes@),
{
    let mut arr = [0u8; 16];
    arr.copy_from_slice(bytes);
    uuid::Uuid::from_bytes(arr).hyphenated().to_string()
}

/// `uuid::Uuid::new_v4().to_string()`. The bytes are random; claims only
/// what holds of every outcome: the text is the hyphenated form of 16 bytes
/// whose version nibble is 4 and whose variant bits are `10`.
#[verifier::external_body]
pub(crate) fn new_uuid_v4() -> (r: String)
    ensures
        is_v4_uuid_text(r@),
{
    uuid::Uuid::new_v4().to_string()
}

/// The year of an RFC 3339 time: four digits, or a sign and at least four
/// digits for a year outside 0 to 9999.
pub open spec fn rfc3339_year(y: Seq<char>) -> bool {
    ||| y.len() == 4 && all_digits(y)
    ||| y.len() >= 5 && (y[0] == '+' || y[0] == '-') && all_digits(y.drop_first())
}

/// `-MM-DDTHH:MM:SS`, each field two digits.
pub open spec fn rfc3339_date_time(s: Seq<char>) -> bool {
    &&& s.len() == 15
    &&& s[0] == '-' && s[3] == '-' && s[6] == 'T' && s[9] == ':' && s[12] == ':'
    &&& forall|i: int|
        0 <= i < 15 && i != 0 && i != 3 && i != 6 && i != 9 && i != 12 ==> is_digit(
            #[trigger] s[i],
        )
}

/// The fraction of a second: none, or a `.` and three, six or nine digits.
pub open spec fn rfc3339_fraction(f: Seq<char>) -> bool {
    ||| f.len() == 0
    ||| (f.len() == 4 || f.len() == 7 || f.len() == 10) && f[0] == '.' && all_digits(
        f.drop_first(),
    )
}

/// Whether `t` is `y`, the date and time, the fraction `f` and `+00:00`.
pub open spec fn rfc3339_utc_parts(t: Seq<char>, y: Seq<char>, f: Seq<char>) -> bool {
    &&& rfc3339_year(y)
    &&& rfc3339_fraction(f)
    &&& t.len() == y.len() + 15 + f.len() + 6
    &&& t.subrange(0, y.len() as int) == y
    &&& rfc3339_date_time(t.subrange(y.len() as int, y.len() + 15int))
    &&& t.subrange(y.len() + 15int, y.len() + 15int + f.len()) == f
    &&& t.subrange(t.len() - 6, t.len() as int) == seq!['+', '0', '0', ':', '0', '0']
}

/// RFC 3339 text of an instant in UTC, as chrono writes it with an offset:
/// `YYYY-MM-DDTHH:MM:SS`, an optional fraction of a second, then `+00:00`.
pub open spec fn is_rfc3339_utc(t: Seq<char>) -> bool {
    exists|y: Seq<char>, f: Seq<char>| #[trigger] rfc3339_utc_parts(t, y, f)
}

/// `chrono::Utc::now().to_rfc3339()`: the current time. Which instant it
/// is depends on the clock; claims only what holds of every outcome: the
/// RFC 3339 form of a UTC instant, with the offset written `+00:00` (chrono
/// writes the date, the time, a fraction of 3, 6 or 9 digits when the
/// nanoseconds are not zero, then the offset without `Z`).
#[verifier::external_body]
pub(crate) fn now_rfc3339() -> (r: String)
    ensures
        is_rfc3339_utc(r@),
{
    chrono::Utc::now().to_rfc3339()
}

/// The lower-case hexadecimal SHA-1 of `data`.
pub fn sha1_hex(data: &[u8]) -> (r: String)
    ensures
        r@ == hex_lower(sha1_digest(data@)),
        r@.len() == 40,
{
    let d = sha1_bytes(data);
    proof {
        lemma_hex_len(d@);
    }
    hex_encode(d.as_slice())
}

pub proof fn lemma_hex_len(data: Seq<u8>)
    ensures
        hex_lower(data).len() == 2 * data.len(),
    decreases data.len(),
{
    if data.len() > 0 {
        lemma_hex_len(data.drop_last());
    }
}

} // verus!
