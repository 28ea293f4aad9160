use base64::Engine;
use hmac::Mac;
use sha2::Digest;
use vstd::prelude::*;

verus! {

// ---------------------------------------------------------------------------
// Hex, base64 and percent encoding: small enough to state exactly.
// ---------------------------------------------------------------------------

/// Lower-case hex digit of a value below 16.
pub open spec fn hex_digit_lower(d: int) -> char {
    if d < 10 {
        (48 + d) as char
    } else {
        (87 + d) as char
    }
}

/// Upper-case hex digit of a value below 16.
pub open spec fn hex_digit_upper(d: int) -> char {
    if d < 10 {
        (48 + d) as char
    } else {
        (55 + d) as char
    }
}

/// Lower-case hex text of bytes, two digits per byte, high nibble first.
pub open spec fn hex_lower(bs: Seq<u8>) -> Seq<char>
    decreases bs.len(),
{
    if bs.len() == 0 {
        Seq::empty()
    } else {
        let b = bs.last() as int;
        hex_lower(bs.drop_last()).push(hex_digit_lower(b / 16)).push(hex_digit_lower(b % 16))
    }
}

/// The character of a 6-bit value in the standard base64 alphabet.
pub open spec fn base64_char(i: int) -> char {
    if i < 26 {
        (65 + i) as char
    } else if i < 52 {
        (71 + i) as char
    } else if i < 62 {
        (i - 4) as char
    } else if i == 62 {
        '+'
    } else {
        '/'
    }
}

/// Standard base64 with `=` padding: each group of three bytes becomes four characters.
pub open spec fn base64_standard(bs: Seq<u8>) -> Seq<char>
    decreases bs.len(),
{
    let b0 = bs[0] as int;
    let b1 = bs[1] as int;
    let b2 = bs[2] as int;
    if bs.len() == 0 {
        Seq::empty()
    } else if bs.len() == 1 {
        seq![base64_char(b0 / 4), base64_char((b0 % 4) * 16), '=', '=']
    } else if bs.len() == 2 {
        seq![
            base64_char(b0 / 4),
            base64_char((b0 % 4) * 16 + b1 / 16),
            base64_char((b1 % 16) * 4),
            '=',
        ]
    } else {
        seq![
            base64_char(b0 / 4),
            base64_char((b0 % 4) * 16 + b1 / 16),
            base64_char((b1 % 16) * 4 + b2 / 64),
            base64_char(b2 % 64),
        ] + base64_standard(bs.skip(3))
    }
}

/// The 6-bit value of a character of the standard base64 alphabet.
pub open spec fn base64_value(c: char) -> int {
    let n = c as int;
    if 65 <= n <= 90 {
        n - 65
    } else if 97 <= n <= 122 {
        n - 71
    } else if 48 <= n <= 57 {
        n + 4
    } else if n == 43 {
        62
    } else {
        63
    }
}

/// Standard base64 decoding of padded text: each group of four characters gives three
/// bytes, or two or one when the group ends with `=` padding.
pub open spec fn base64_decode(s: Seq<char>) -> Seq<u8>
    decreases s.len(),
{
    if s.len() < 4 {
        Seq::empty()
    } else {
        let a = base64_value(s[0]);
        let b = base64_value(s[1]);
        let c = base64_value(s[2]);
        let d = base64_value(s[3]);
        let group = if s[2] == '=' {
            seq![(a * 4 + b / 16) as u8]
        } else if s[3] == '=' {
            seq![(a * 4 + b / 16) as u8, ((b % 16) * 16 + c / 4) as u8]
        } else {
            seq![(a * 4 + b / 16) as u8, ((b % 16) * 16 + c / 4) as u8, ((c % 4) * 64 + d) as u8]
        };
        group + base64_decode(s.skip(4))
    }
}

proof fn lemma_base64_char(i: int)
    requires
        0 <= i < 64,
    ensures
        base64_value(base64_char(i)) == i,
        base64_char(i) != '=',
{
    if i < 26 {
        assert(((65 + i) as char) as int == 65 + i);
    } else if i < 52 {
        assert(((71 + i) as char) as int == 71 + i);
    } else if i < 62 {
        assert(((i - 4) as char) as int == i - 4);
    }
}

proof fn lemma_base64_group(b0: int, b1: int, b2: int)
    requires
        0 <= b0 < 256,
        0 <= b1 < 256,
        0 <= b2 < 256,
    ensures
        0 <= b0 / 4 < 64,
        0 <= (b0 % 4) * 16 < 64,
        0 <= (b0 % 4) * 16 + b1 / 16 < 64,
        0 <= (b1 % 16) * 4 < 64,
        0 <= (b1 % 16) * 4 + b2 / 64 < 64,
        0 <= b2 % 64 < 64,
        (b0 / 4) * 4 + ((b0 % 4) * 16) / 16 == b0,
        (b0 / 4) * 4 + ((b0 % 4) * 16 + b1 / 16) / 16 == b0,
        (((b0 % 4) * 16 + b1 / 16) % 16) * 16 + ((b1 % 16) * 4) / 4 == b1,
        (((b0 % 4) * 16 + b1 / 16) % 16) * 16 + ((b1 % 16) * 4 + b2 / 64) / 4 == b1,
        (((b1 % 16) * 4 + b2 / 64) % 4) * 64 + b2 % 64 == b2,
{
    assert(0 <= b0 / 4 < 64 && 0 <= (b0 % 4) * 16 + b1 / 16 < 64 && 0 <= (b1 % 16) * 4 + b2 / 64 < 64)
        by (nonlinear_arith)
        requires
            0 <= b0 < 256,
            0 <= b1 < 256,
            0 <= b2 < 256,
    ;
    assert((b0 / 4) * 4 + ((b0 % 4) * 16 + b1 / 16) / 16 == b0) by (nonlinear_arith)
        requires
            0 <= b0 < 256,
            0 <= b1 < 256,
    ;
    assert((b0 / 4) * 4 + ((b0 % 4) * 16) / 16 == b0) by (nonlinear_arith)
        requires
            0 <= b0 < 256,
    ;
    assert((((b0 % 4) * 16 + b1 / 16) % 16) * 16 + ((b1 % 16) * 4 + b2 / 64) / 4 == b1) by (nonlinear_arith)
        requires
            0 <= b0 < 256,
            0 <= b1 < 256,
            0 <= b2 < 256,
    ;
    assert((((b0 % 4) * 16 + b1 / 16) % 16) * 16 + ((b1 % 16) * 4) / 4 == b1) by (nonlinear_arith)
        requires
            0 <= b0 < 256,
            0 <= b1 < 256,
    ;
    assert((((b1 % 16) * 4 + b2 / 64) % 4) * 64 + b2 % 64 == b2) by (nonlinear_arith)
        requires
            0 <= b1 < 256,
            0 <= b2 < 256,
    ;
}

/// Decoding standard base64 gives back the bytes that were encoded.
pub proof fn law_base64_round_trip(bs: Seq<u8>)
    ensures
        base64_decode(base64_standard(bs)) == bs,
    decreases bs.len(),
{
    if bs.len() == 0 {
        assert(base64_standard(bs) =~= Seq::<char>::empty());
        assert(bs =~= Seq::<u8>::empty());
    } else {
        let b0 = bs[0] as int;
        let b1 = bs[1] as int;
        let b2 = bs[2] as int;
        let e = base64_standard(bs);
        if bs.len() == 1 {
            lemma_base64_group(b0, 0, 0);
            lemma_base64_char(b0 / 4);
            lemma_base64_char((b0 % 4) * 16);
            assert(e == seq![base64_char(b0 / 4), base64_char((b0 % 4) * 16), '=', '=']);
            assert(e.skip(4) =~= Seq::<char>::empty());
            assert(base64_decode(e.skip(4)) == Seq::<u8>::empty());
            let v = base64_value(e[0]) * 4 + base64_value(e[1]) / 16;
            assert(v == b0);
            assert(base64_decode(e) == seq![v as u8] + base64_decode(e.skip(4)));
            assert(base64_decode(e) =~= bs);
        } else if bs.len() == 2 {
            lemma_base64_group(b0, b1, 0);
            lemma_base64_char(b0 / 4);
            lemma_base64_char((b0 % 4) * 16 + b1 / 16);
            lemma_base64_char((b1 % 16) * 4);
            assert(e == seq![
                base64_char(b0 / 4),
                base64_char((b0 % 4) * 16 + b1 / 16),
                base64_char((b1 % 16) * 4),
                '=',
            ]);
            assert(e.skip(4) =~= Seq::<char>::empty());
            assert(base64_decode(e.skip(4)) == Seq::<u8>::empty());
            let v0 = base64_value(e[0]) * 4 + base64_value(e[1]) / 16;
            let v1 = (base64_value(e[1]) % 16) * 16 + base64_value(e[2]) / 4;
            assert(v0 == b0 && v1 == b1);
            assert(base64_decode(e) == seq![v0 as u8, v1 as u8] + base64_decode(e.skip(4)));
            assert(base64_decode(e) =~= bs);
        } else {
            lemma_base64_group(b0, b1, b2);
            lemma_base64_char(b0 / 4);
            lemma_base64_char((b0 % 4) * 16 + b1 / 16);
            lemma_base64_char((b1 % 16) * 4 + b2 / 64);
            lemma_base64_char(b2 % 64);
            law_base64_round_trip(bs.skip(3));
            let head = seq![
                base64_char(b0 / 4),
                base64_char((b0 % 4) * 16 + b1 / 16),
                base64_char((b1 % 16) * 4 + b2 / 64),
                base64_char(b2 % 64),
            ];
            assert(e == head + base64_standard(bs.skip(3)));
            assert(e.skip(4) =~= base64_standard(bs.skip(3)));
            assert(base64_decode(e) == seq![bs[0], bs[1], bs[2]] + base64_decode(e.skip(4)));
            assert(seq![bs[0], bs[1], bs[2]] + bs.skip(3) =~= bs);
        }
    }
}

/// A byte that percent encoding leaves as it is: ASCII letters, digits, `-`, `.`, `_`, `~`.
pub open spec fn url_safe(b: u8) -> bool {
    (48 <= b <= 57) || (65 <= b <= 90) || (97 <= b <= 122) || b == 45 || b == 46 || b == 95
        || b == 126
}

/// Percent encoding of bytes: safe bytes stay, any other byte becomes `%` and two
/// upper-case hex digits.
pub open spec fn url_encode_bytes(bs: Seq<u8>) -> Seq<char>
    decreases bs.len(),
{
    if bs.len() == 0 {
        Seq::empty()
    } else {
        let b = bs.last();
        url_encode_bytes(bs.drop_last()) + if url_safe(b) {
            seq![b as char]
        } else {
            seq!['%', hex_digit_upper(b as int / 16), hex_digit_upper(b as int % 16)]
        }
    }
}

/// Calls `hex::encode`, which writes each byte as two lower-case hex digits.
#[verifier::external_body]
pub(crate) fn hex_encode(data: &[u8]) -> (r: String)
    ensures
        r@ == hex_lower(data@),
{
    hex::encode(data)
}

/// Calls `base64::engine::general_purpose::STANDARD.encode`: standard alphabet, padded.
#[verifier::external_body]
pub(crate) fn base64_encode(data: &[u8]) -> (r: String)
    ensures
        r@ == base64_standard(data@),
{
    base64::engine::general_purpose::STANDARD.encode(data)
}

/// Calls `urlencoding::encode`, which percent-encodes the UTF-8 bytes of `s`.
#[verifier::external_body]
pub(crate) fn url_encode(s: &str) -> (r: String)
    ensures
        r@ == url_encode_bytes(vstd::utf8::encode_utf8(s@)),
{
    urlencoding::encode(s).into_owned()
}

// ---------------------------------------------------------------------------
// Digests: named, not written out.
// ---------------------------------------------------------------------------

/// The SHA-256 digest of a byte string.
pub uninterp spec fn sha256_digest(data: Seq<u8>) -> Seq<u8>;

/// The HMAC-SHA256 tag of a message under a key.
pub uninterp spec fn hmac_sha256_tag(key: Seq<u8>, msg: Seq<u8>) -> Seq<u8>;

/// Calls `sha2::Sha256::digest`; the digest is 32 bytes long.
#[verifier::external_body]
pub(crate) fn sha256(data: &[u8]) -> (r: Vec<u8>)
    ensures
        r@ == sha256_digest(data@),
        r@.len() == 32,
{
    sha2::Sha256::digest(data).to_vec()
}

#[verifier::external_type_specification]
#[verifier::external_body]
pub struct ExInvalidLength(hmac::digest::InvalidLength);

/// Calls `Hmac::<Sha256>::new_from_slice`, `Mac::update` and `Mac::finalize`.
/// HMAC takes keys of any length, so the construction does not fail; the tag is 32 bytes long.
#[verifier::external_body]
pub(crate) fn hmac_sha256(key: &[u8], msg: &[u8]) -> (r: Result<Vec<u8>, hmac::digest::InvalidLength>)
    ensures
        r is Ok,
        r is Ok ==> r->Ok_0@ == hmac_sha256_tag(key@, msg@),
        r is Ok ==> r->Ok_0@.len() == 32,
{
    let mut mac = hmac::Hmac::<sha2::Sha256>::new_from_slice(key)?;
    mac.update(msg);
    Ok(mac.finalize().into_bytes().to_vec())
}

// ---------------------------------------------------------------------------
// Values that depend on chance or time: nothing is stated of them.
// ---------------------------------------------------------------------------

/// A lower-case hex digit.
pub open spec fn is_lower_hex(c: char) -> bool {
    ('0' <= c && c <= '9') || ('a' <= c && c <= 'f')
}

/// A decimal digit.
pub open spec fn is_decimal_digit(c: char) -> bool {
    '0' <= c && c <= '9'
}

/// Where the hyphens of a UUID's hyphenated text stand.
pub open spec fn uuid_hyphen_at(i: int) -> bool {
    i == 8 || i == 13 || i == 18 || i == 23
}

/// The shape of a version-4 UUID in its hyphenated text form: 36 characters, hyphens after
/// the 8th, 12th, 16th and 20th hex digit, lower-case hex digits elsewhere, the version
/// digit `4`, and a variant digit among `8`, `9`, `a`, `b`.
pub open spec fn uuid_text_shape(s: Seq<char>) -> bool {
    &&& s.len() == 36
    &&& forall|i: int| 0 <= i < 36 ==> (if uuid_hyphen_at(i) { s[i] == '-' } else { is_lower_hex(#[trigger] s[i]) })
    &&& s[14] == '4'
    &&& (s[19] == '8' || s[19] == '9' || s[19] == 'a' || s[19] == 'b')
}

/// Calls `uuid::Uuid::new_v4` and writes it out (its `Display` is the lower-case
/// hyphenated form): a fresh random version-4 identifier, of which only the shape is stated.
#[verifier::external_body]
pub(crate) fn new_uuid_v4() -> (r: String)
    ensures
        uuid_text_shape(r@),
{
    uuid::Uuid::new_v4().to_string()
}

/// The `strftime` pattern of an HTTP date, such as `Mon, 01 Jan 2024 00:00:00 GMT`.
pub open spec fn http_date_pattern() -> Seq<char> {
    "%a, %d %b %Y %H:%M:%S GMT"@
}

/// The English three-letter names of the days of the week.
pub open spec fn short_weekday(s: Seq<char>) -> bool {
    s == "Mon"@ || s == "Tue"@ || s == "Wed"@ || s == "Thu"@ || s == "Fri"@ || s == "Sat"@ || s == "Sun"@
}

/// The English three-letter names of the months.
pub open spec fn short_month(s: Seq<char>) -> bool {
    ||| s == "Jan"@ || s == "Feb"@ || s == "Mar"@ || s == "Apr"@ || s == "May"@ || s == "Jun"@
    ||| s == "Jul"@ || s == "Aug"@ || s == "Sep"@ || s == "Oct"@ || s == "Nov"@ || s == "Dec"@
}

/// The shape of an HTTP date written with `http_date_pattern`, such as
/// `Mon, 01 Jan 2024 00:00:00 GMT`: weekday, comma, two-digit day, month, a year of at
/// least four characters, two-digit hours, minutes and seconds, and `GMT`.
pub open spec fn http_date_shape(s: Seq<char>) -> bool {
    let n = s.len() as int;
    &&& n >= 29
    &&& short_weekday(s.subrange(0, 3))
    &&& s.subrange(3, 5) == ", "@
    &&& is_decimal_digit(s[5]) && is_decimal_digit(s[6])
    &&& s[7] == ' '
    &&& short_month(s.subrange(8, 11))
    &&& s[11] == ' '
    &&& s[n - 13] == ' '
    &&& is_decimal_digit(s[n - 12]) && is_decimal_digit(s[n - 11])
    &&& s[n - 10] == ':'
    &&& is_decimal_digit(s[n - 9]) && is_decimal_digit(s[n - 8])
    &&& s[n - 7] == ':'
    &&& is_decimal_digit(s[n - 6]) && is_decimal_digit(s[n - 5])
    &&& s.subrange(n - 4, n) == " GMT"@
}

/// Calls `chrono::Utc::now` and formats the current UTC time with `pattern`. Writing out
/// a pattern that chrono cannot read panics, so only the HTTP date pattern is accepted;
/// the text then has the shape of an HTTP date (chrono writes a year outside 0 to 9999
/// with a sign and at least four digits). Which date it is depends on the clock and is not
/// stated; a clock set before 1970 makes `Utc::now` panic, which no argument can rule out.
#[verifier::external_body]
pub(crate) fn format_utc_now(pattern: &str) -> (r: String)
    requires
        pattern@ == http_date_pattern(),
    ensures
        http_date_shape(r@),
{
    chrono::Utc::now().format(pattern).to_string()
}

} // verus!
