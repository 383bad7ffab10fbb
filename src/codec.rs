use vstd::prelude::*;

verus! {

/// The lowercase hex digit for a nibble value `v < 16`.
pub open spec fn nibble_char(v: int) -> char {
    seq!['0', '1', '2', '3', '4', '5', '6', '7', '8', '9', 'a', 'b', 'c', 'd', 'e', 'f'][v]
}

/// Lowercase hex encoding: two digits per byte, high nibble first.
pub open spec fn hex_lower(b: Seq<u8>) -> Seq<char> {
    Seq::new(
        2 * b.len(),
        |i: int|
            if i % 2 == 0 {
                nibble_char(b[i / 2] as int / 16)
            } else {
                nibble_char(b[i / 2] as int % 16)
            },
    )
}

/// Whether `c` is a hex digit of either case.
pub open spec fn is_hex_digit(c: char) -> bool {
    ('0' <= c && c <= '9') || ('a' <= c && c <= 'f') || ('A' <= c && c <= 'F')
}

/// Whether `c` is a lowercase hex digit.
pub open spec fn is_lower_hex_digit(c: char) -> bool {
    ('0' <= c && c <= '9') || ('a' <= c && c <= 'f')
}

/// The value of the hex digit `c`.
pub open spec fn hex_digit_value(c: char) -> int {
    if '0' <= c && c <= '9' {
        c as int - '0' as int
    } else if 'a' <= c && c <= 'f' {
        c as int - 'a' as int + 10
    } else {
        c as int - 'A' as int + 10
    }
}

/// Whether `s` is a whole hex encoding: an even number of hex digits.
pub open spec fn is_hex_encoding(s: Seq<char>) -> bool {
    s.len() % 2 == 0 && forall|i: int| 0 <= i < s.len() ==> is_hex_digit(#[trigger] s[i])
}

/// The bytes that the hex string `s` encodes, two digits per byte.
pub open spec fn hex_bytes(s: Seq<char>) -> Seq<u8> {
    Seq::new(
        s.len() / 2,
        |i: int| (hex_digit_value(s[2 * i]) * 16 + hex_digit_value(s[2 * i + 1])) as u8,
    )
}

/// Whether `s` is the hex form of a digest: 32 lowercase hex digits.
pub open spec fn is_digest_hex(s: Seq<char>) -> bool {
    s.len() == 32 && forall|i: int| 0 <= i < s.len() ==> is_lower_hex_digit(#[trigger] s[i])
}

/// The character for a six-bit value in the standard base64 alphabet.
pub open spec fn base64_char(v: int) -> char {
    if v < 26 {
        seq!['A', 'B', 'C', 'D', 'E', 'F', 'G', 'H', 'I', 'J', 'K', 'L', 'M',
             'N', 'O', 'P', 'Q', 'R', 'S', 'T', 'U', 'V', 'W', 'X', 'Y', 'Z'][v]
    } else if v < 52 {
        seq!['a', 'b', 'c', 'd', 'e', 'f', 'g', 'h', 'i', 'j', 'k', 'l', 'm',
             'n', 'o', 'p', 'q', 'r', 's', 't', 'u', 'v', 'w', 'x', 'y', 'z'][v - 26]
    } else if v < 62 {
        seq!['0', '1', '2', '3', '4', '5', '6', '7', '8', '9'][v - 52]
    } else if v == 62 {
        '+'
    } else {
        '/'
    }
}

/// Standard base64 with `=` padding: each group of three bytes becomes four
/// characters; a final group of one or two bytes is padded to four.
pub open spec fn base64_standard(b: Seq<u8>) -> Seq<char>
    decreases b.len(),
{
    let x0 = b[0] as int;
    let x1 = b[1] as int;
    let x2 = b[2] as int;
    if b.len() == 0 {
        seq![]
    } else if b.len() == 1 {
        seq![base64_char(x0 / 4), base64_char((x0 % 4) * 16), '=', '=']
    } else if b.len() == 2 {
        seq![
            base64_char(x0 / 4),
            base64_char((x0 % 4) * 16 + x1 / 16),
            base64_char((x1 % 16) * 4),
            '=',
        ]
    } else {
        seq![
            base64_char(x0 / 4),
            base64_char((x0 % 4) * 16 + x1 / 16),
            base64_char((x1 % 16) * 4 + x2 / 64),
            base64_char(x2 % 64),
        ] + base64_standard(b.subrange(3, b.len() as int))
    }
}

/// `hex::FromHexError`, carried through to be mapped to a library error.
#[verifier::external_type_specification]
#[verifier::external_body]
pub struct ExFromHexError(hex::FromHexError);

/// Relies on `hex::encode`: two lowercase digits per byte, high nibble first
/// (its table `HEX_CHARS_LOWER`).
#[verifier::external_body]
pub(crate) fn hex_encode(b: &[u8]) -> (r: String)
    ensures
        r@ == hex_lower(b@),
{
    hex::encode(b)
}

/// Relies on `hex::decode` of a string's bytes: `Ok` exactly when the length
/// is even and every byte is a hex digit of either case, and then two digits
/// make one byte, high nibble first. A non-ASCII character is never a digit.
#[verifier::external_body]
fn hex_decode(s: &str) -> (r: Result<Vec<u8>, hex::FromHexError>)
    ensures
        r is Ok <==> is_hex_encoding(s@),
        r is Ok ==> r->Ok_0@ == hex_bytes(s@),
{
    hex::decode(s)
}

/// Relies on `base64::encode` (standard alphabet, padded).
#[verifier::external_body]
pub(crate) fn base64_encode(b: &[u8]) -> (r: String)
    ensures
        r@ == base64_standard(b@),
{
    base64::encode(b)
}

/// Whether `s` is 32 lowercase hex digits, the form in which the service
/// exchanges digests.
pub fn is_digest_hex_str(s: &str) -> (r: bool)
    ensures
        r == is_digest_hex(s@),
{
    let len = s.unicode_len();
    if len != 32 {
        return false;
    }
    let mut i: usize = 0;
    while i < len
        invariant
            len == s@.len(),
            i <= len,
            forall|j: int| 0 <= j < i ==> is_lower_hex_digit(#[trigger] s@[j]),
        decreases len - i,
    {
        let c = s.get_char(i);
        if !(('0' <= c && c <= '9') || ('a' <= c && c <= 'f')) {
            return false;
        }
        i = i + 1;
    }
    true
}

/// The digest that `s` is the hex form of, if `s` is 32 lowercase hex digits.
pub fn digest_from_hex(s: &str) -> (r: Option<Vec<u8>>)
    ensures
        r is Some <==> is_digest_hex(s@),
        r is Some ==> r->Some_0@ == hex_bytes(s@) && r->Some_0@.len() == 16,
{
    if !is_digest_hex_str(s) {
        return None;
    }
    assert(is_hex_encoding(s@)) by {
        assert forall|i: int| 0 <= i < s@.len() implies is_hex_digit(#[trigger] s@[i]) by {
            assert(is_lower_hex_digit(s@[i]));
        }
    }
    match hex_decode(s) {
        Ok(v) => Some(v),
        Err(_) => None,
    }
}

/// Hex-encoding a byte string and decoding the result gives the byte string
/// back, and the encoding of a 16-byte digest is 32 lowercase hex digits.
pub proof fn lemma_hex_round_trip(b: Seq<u8>)
    ensures
        is_hex_encoding(hex_lower(b)),
        hex_bytes(hex_lower(b)) == b,
        b.len() == 16 ==> is_digest_hex(hex_lower(b)),
{
    let h = hex_lower(b);
    assert forall|v: int| 0 <= v < 16 implies is_lower_hex_digit(#[trigger] nibble_char(v))
        && hex_digit_value(nibble_char(v)) == v by {
    }
    assert forall|i: int| 0 <= i < h.len() implies is_lower_hex_digit(#[trigger] h[i]) by {
        assert(0 <= b[i / 2] as int / 16 < 16);
        assert(0 <= b[i / 2] as int % 16 < 16);
    }
    assert forall|i: int| 0 <= i < h.len() implies is_hex_digit(#[trigger] h[i]) by {
        assert(is_lower_hex_digit(h[i]));
    }
    assert forall|i: int| 0 <= i < b.len() implies #[trigger] hex_bytes(h)[i] == b[i] by {
        let x = b[i] as int;
        assert(h[2 * i] == nibble_char(x / 16));
        assert(h[2 * i + 1] == nibble_char(x % 16));
        assert(hex_digit_value(nibble_char(x / 16)) == x / 16);
        assert(hex_digit_value(nibble_char(x % 16)) == x % 16);
    }
    assert(hex_bytes(h) =~= b);
}

/// Whether two strings hold the same characters.
pub(crate) fn str_eq(a: &str, b: &str) -> (r: bool)
    ensures
        r == (a@ == b@),
{
    let n = a.unicode_len();
    if n != b.unicode_len() {
        return false;
    }
    let mut i: usize = 0;
    while i < n
        invariant
            n == a@.len(),
            n == b@.len(),
            i <= n,
            forall|j: int| 0 <= j < i ==> a@[j] == b@[j],
        decreases n - i,
    {
        if a.get_char(i) != b.get_char(i) {
            return false;
        }
        i = i + 1;
    }
    assert(a@ =~= b@);
    true
}

} // verus!
