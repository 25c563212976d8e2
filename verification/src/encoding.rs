//! Bytes as text: hexadecimal, base64 and UTF-8.

use base64::Engine;
use vstd::prelude::*;
use vstd::utf8::*;

verus! {

/// The lower-case hexadecimal digit of a value below sixteen.
pub open spec fn hex_digit(v: nat) -> char {
    if v < 10 {
        (48 + v) as u8 as char
    } else {
        (87 + v) as u8 as char
    }
}

/// The value of a hexadecimal digit of either case.
pub open spec fn hex_value(c: char) -> Option<nat> {
    let v = c as u32;
    if 48 <= v <= 57 {
        Some((v - 48) as nat)
    } else if 65 <= v <= 70 {
        Some((v - 55) as nat)
    } else if 97 <= v <= 102 {
        Some((v - 87) as nat)
    } else {
        None
    }
}

/// Bytes in hexadecimal: two lower-case digits for each.
pub open spec fn hex_text(data: Seq<u8>) -> Seq<char> {
    Seq::new(
        2 * data.len(),
        |i: int|
            if i % 2 == 0 {
                hex_digit((data[i / 2] / 16) as nat)
            } else {
                hex_digit((data[i / 2] % 16) as nat)
            },
    )
}

/// Whether a text consists of hexadecimal digits only.
pub open spec fn is_hex(s: Seq<char>) -> bool {
    forall|i: int| 0 <= i < s.len() ==> hex_value(#[trigger] s[i]) is Some
}

/// The byte that the digits `2 * i` and `2 * i + 1` of a text write.
pub open spec fn hex_byte(s: Seq<char>, i: int) -> u8 {
    (hex_value(s[2 * i])->0 * 16 + hex_value(s[2 * i + 1])->0) as u8
}

/// The bytes that a text writes in hexadecimal.
pub open spec fn hex_bytes(s: Seq<char>) -> Option<Seq<u8>> {
    if s.len() % 2 == 0 && is_hex(s) {
        Some(Seq::new(s.len() / 2, |i: int| hex_byte(s, i)))
    } else {
        None
    }
}

/// Hexadecimal text reads back as the bytes that it was written from.
pub proof fn lemma_hex_round_trip(data: Seq<u8>)
    ensures
        hex_bytes(hex_text(data)) == Some(data),
{
    let s = hex_text(data);
    assert forall|i: int| 0 <= i < s.len() implies hex_value(#[trigger] s[i]) is Some by {
        assert(0 <= i / 2 < data.len());
    }
    assert(is_hex(s));
    let back = Seq::new(s.len() / 2, |i: int| hex_byte(s, i));
    assert forall|i: int| 0 <= i < data.len() implies back[i] == data[i] by {
        let b = data[i];
        assert((2 * i) / 2 == i && (2 * i + 1) / 2 == i);
        assert((2 * i) % 2 == 0 && (2 * i + 1) % 2 == 1);
        assert(hex_value(s[2 * i]) == Some((b / 16) as nat));
        assert(hex_value(s[2 * i + 1]) == Some((b % 16) as nat));
    }
    assert(back =~= data);
}

/// What `hex::decode` says of a text that it refuses.
pub uninterp spec fn hex_refusal(s: Seq<char>) -> Seq<char>;

/// `hex::encode`: two lower-case hexadecimal digits for each byte.
#[verifier::external_body]
pub(crate) fn hex_encode(data: &[u8]) -> (s: String)
    ensures
        s@ == hex_text(data@),
{
    hex::encode(data)
}

/// `hex::decode`: the bytes that an even number of hexadecimal digits of either
/// case writes; any other text is refused. The words of the refusal have a name; an odd
/// number of bytes is refused for that, whatever they are.
#[verifier::external_body]
pub(crate) fn hex_decode(s: &str) -> (r: Result<Vec<u8>, String>)
    ensures
        match r {
            Ok(data) => hex_bytes(s@) == Some(data@),
            Err(e) => {
                &&& hex_bytes(s@) is None
                &&& e@ == hex_refusal(s@)
                &&& encode_utf8(s@).len() % 2 == 1 ==> e@ == "Odd number of digits"@
            },
        },
{
    hex::decode(s).map_err(|e| e.to_string())
}

/// The base64 digit of a value below sixty-four.
pub open spec fn base64_digit(v: nat) -> char {
    if v < 26 {
        (65 + v) as u8 as char
    } else if v < 52 {
        (71 + v) as u8 as char
    } else if v < 62 {
        (v - 4) as u8 as char
    } else if v == 62 {
        '+'
    } else {
        '/'
    }
}

/// The byte at an index, and zero behind the end.
pub open spec fn byte_or_zero(data: Seq<u8>, i: int) -> nat {
    if 0 <= i < data.len() {
        data[i] as nat
    } else {
        0
    }
}

/// Three bytes as one number, bytes behind the end counting as zero.
pub open spec fn base64_group(data: Seq<u8>, g: int) -> nat {
    byte_or_zero(data, 3 * g) * 65536 + byte_or_zero(data, 3 * g + 1) * 256 + byte_or_zero(
        data,
        3 * g + 2,
    )
}

/// The character at position `k` of the base64 text of `data`.
pub open spec fn base64_char(data: Seq<u8>, k: int) -> char {
    let g = k / 4;
    let w = base64_group(data, g);
    if k % 4 == 0 {
        base64_digit(w / 262144)
    } else if k % 4 == 1 {
        base64_digit(w / 4096 % 64)
    } else if k % 4 == 2 {
        if 3 * g + 1 < data.len() {
            base64_digit(w / 64 % 64)
        } else {
            '='
        }
    } else {
        if 3 * g + 2 < data.len() {
            base64_digit(w % 64)
        } else {
            '='
        }
    }
}

/// Bytes in base64 with the standard alphabet and padding: four characters for
/// every three bytes begun.
pub open spec fn base64_text(data: Seq<u8>) -> Seq<char> {
    Seq::new((4 * ((data.len() + 2) / 3)) as nat, |k: int| base64_char(data, k))
}

/// What the base64 decoder says of a text that it refuses.
pub uninterp spec fn base64_refusal(s: Seq<char>) -> Seq<char>;

/// `Engine::encode` of the engine `STANDARD`: base64 with padding.
#[verifier::external_body]
pub(crate) fn base64_encode(data: &[u8]) -> (s: String)
    ensures
        s@ == base64_text(data@),
{
    base64::engine::general_purpose::STANDARD.encode(data)
}

/// `Engine::decode` of the engine `STANDARD`: it accepts exactly the texts that the
/// encoder writes, since it requires the padding and refuses set bits that the
/// encoder leaves clear, and gives back the bytes that such a text was written
/// from. The words of a refusal have a name.
#[verifier::external_body]
pub(crate) fn base64_decode(s: &str) -> (r: Result<Vec<u8>, String>)
    ensures
        match r {
            Ok(data) => base64_text(data@) == s@,
            Err(e) => (forall|data: Seq<u8>| #[trigger] base64_text(data) != s@) && e@
                == base64_refusal(s@),
        },
{
    base64::engine::general_purpose::STANDARD.decode(s).map_err(|e| e.to_string())
}

proof fn lemma_base64_digit_injective(a: nat, b: nat)
    requires
        a < 64,
        b < 64,
        base64_digit(a) == base64_digit(b),
    ensures
        a == b,
{
}

proof fn lemma_base64_digit_not_pad(v: nat)
    requires
        v < 64,
    ensures
        base64_digit(v) != '=',
{
}

/// The four digits of a 24-bit number determine it.
proof fn lemma_group_digits(a: nat, b: nat)
    requires
        a < 16777216,
        b < 16777216,
        a / 262144 == b / 262144,
        a / 4096 % 64 == b / 4096 % 64,
        a / 64 % 64 == b / 64 % 64,
        a % 64 == b % 64,
    ensures
        a == b,
{
    assert(a / 64 / 64 == a / 4096 && a / 4096 / 64 == a / 262144);
    assert(b / 64 / 64 == b / 4096 && b / 4096 / 64 == b / 262144);
}

/// The length of the bytes, from the text: the padding tells how many bytes the
/// last group holds.
proof fn lemma_base64_same_len(a: Seq<u8>, b: Seq<u8>)
    requires
        base64_text(a) == base64_text(b),
    ensures
        a.len() == b.len(),
{
    let s = base64_text(a);
    let t = base64_text(b);
    assert(s.len() == t.len());
    assert((a.len() + 2) / 3 == (b.len() + 2) / 3);
    let groups = (a.len() + 2) / 3;
    if groups > 0 {
        let k = 4 * groups;
        let g = groups - 1;
        assert((k - 2) / 4 == g && (k - 1) / 4 == g);
        assert((k - 2) % 4 == 2 && (k - 1) % 4 == 3);
        assert(s[k - 2] == base64_char(a, k - 2) && t[k - 2] == base64_char(b, k - 2));
        assert(s[k - 1] == base64_char(a, k - 1) && t[k - 1] == base64_char(b, k - 1));
        lemma_base64_digit_not_pad(base64_group(a, g) / 64 % 64);
        lemma_base64_digit_not_pad(base64_group(b, g) / 64 % 64);
        lemma_base64_digit_not_pad(base64_group(a, g) % 64);
        lemma_base64_digit_not_pad(base64_group(b, g) % 64);
        assert((3 * g + 1 < a.len()) == (3 * g + 1 < b.len()));
        assert((3 * g + 2 < a.len()) == (3 * g + 2 < b.len()));
    }
}

/// The digits that padding replaces stand for zero bits.
proof fn lemma_base64_padded_group(data: Seq<u8>, g: int)
    requires
        0 <= g,
        3 * g < data.len(),
    ensures
        base64_group(data, g) < 16777216,
        3 * g + 1 >= data.len() ==> base64_group(data, g) / 64 % 64 == 0,
        3 * g + 2 >= data.len() ==> base64_group(data, g) % 64 == 0,
{
}

/// Different bytes have different base64 texts.
pub proof fn lemma_base64_injective(a: Seq<u8>, b: Seq<u8>)
    requires
        base64_text(a) == base64_text(b),
    ensures
        a == b,
{
    lemma_base64_same_len(a, b);
    let s = base64_text(a);
    let t = base64_text(b);
    assert forall|i: int| 0 <= i < a.len() implies a[i] == b[i] by {
        let g = i / 3;
        assert(3 * g < a.len());
        assert(g < (a.len() + 2) / 3);
        assert(4 * g + 3 < s.len());
        assert(s[4 * g] == base64_char(a, 4 * g) && t[4 * g] == base64_char(b, 4 * g));
        assert(s[4 * g + 1] == base64_char(a, 4 * g + 1) && t[4 * g + 1] == base64_char(
            b,
            4 * g + 1,
        ));
        assert(s[4 * g + 2] == base64_char(a, 4 * g + 2) && t[4 * g + 2] == base64_char(
            b,
            4 * g + 2,
        ));
        assert(s[4 * g + 3] == base64_char(a, 4 * g + 3) && t[4 * g + 3] == base64_char(
            b,
            4 * g + 3,
        ));
        let v = base64_group(a, g);
        let w = base64_group(b, g);
        lemma_base64_padded_group(a, g);
        lemma_base64_padded_group(b, g);
        lemma_base64_digit_injective(v / 262144, w / 262144);
        lemma_base64_digit_injective(v / 4096 % 64, w / 4096 % 64);
        if 3 * g + 1 < a.len() {
            lemma_base64_digit_injective(v / 64 % 64, w / 64 % 64);
        }
        if 3 * g + 2 < a.len() {
            lemma_base64_digit_injective(v % 64, w % 64);
        }
        lemma_group_digits(v, w);
        assert(byte_or_zero(a, 3 * g) == byte_or_zero(b, 3 * g));
        assert(byte_or_zero(a, 3 * g + 1) == byte_or_zero(b, 3 * g + 1));
        assert(byte_or_zero(a, 3 * g + 2) == byte_or_zero(b, 3 * g + 2));
        assert(i == 3 * g || i == 3 * g + 1 || i == 3 * g + 2);
    }
    assert(a =~= b);
}

/// The bytes that a base64 text writes.
pub open spec fn base64_bytes(s: Seq<char>) -> Option<Seq<u8>> {
    if exists|data: Seq<u8>| #[trigger] base64_text(data) == s {
        Some(choose|data: Seq<u8>| #[trigger] base64_text(data) == s)
    } else {
        None
    }
}

/// Reading a base64 text gives the bytes that it was written for.
pub proof fn lemma_base64_round_trip(data: Seq<u8>)
    ensures
        base64_bytes(base64_text(data)) == Some(data),
{
    let s = base64_text(data);
    let read = choose|d: Seq<u8>| #[trigger] base64_text(d) == s;
    assert(base64_text(read) == s);
    lemma_base64_injective(read, data);
}

/// What `String::from_utf8_lossy` makes of bytes.
pub uninterp spec fn utf8_lossy_text(bytes: Seq<u8>) -> Seq<char>;

/// The text of bytes: what they write in UTF-8, or what stands in for it.
pub open spec fn lossy_text(bytes: Seq<u8>) -> Seq<char> {
    if valid_utf8(bytes) {
        decode_utf8(bytes)
    } else {
        utf8_lossy_text(bytes)
    }
}

/// `String::from_utf8_lossy`: valid UTF-8 is decoded as it is; the text that other
/// bytes become, with the replacement character in it, has a name.
#[verifier::external_body]
pub(crate) fn utf8_lossy(bytes: &[u8]) -> (s: String)
    ensures
        s@ == utf8_lossy_text(bytes@),
        valid_utf8(bytes@) ==> s@ == decode_utf8(bytes@),
{
    String::from_utf8_lossy(bytes).into_owned()
}

} // verus!
