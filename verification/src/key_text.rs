//! The base64 text in which storage keys travel to the cleanup contract.
use base64::Engine as _;
use vstd::prelude::*;

verus! {

/// The symbol of the standard base64 alphabet for the six-bit value `v`.
pub open spec fn symbol(v: int) -> char {
    if v < 26 {
        ('A' as int + v) as char
    } else if v < 52 {
        ('a' as int + (v - 26)) as char
    } else if v < 62 {
        ('0' as int + (v - 52)) as char
    } else if v == 62 {
        '+'
    } else {
        '/'
    }
}

/// Byte `i` of `bytes`, or zero past the end.
pub open spec fn byte_or_zero(bytes: Seq<u8>, i: int) -> int {
    if 0 <= i < bytes.len() {
        bytes[i] as int
    } else {
        0
    }
}

/// The 24-bit big-endian number of the three bytes of group `g`, zero-filled past the end.
pub open spec fn group(bytes: Seq<u8>, g: int) -> int {
    65536 * byte_or_zero(bytes, 3 * g) + 256 * byte_or_zero(bytes, 3 * g + 1) + byte_or_zero(
        bytes,
        3 * g + 2,
    )
}

/// The `p`-th of the four six-bit values, most significant first, of a 24-bit number.
pub open spec fn sextet(v: int, p: int) -> int {
    if p == 0 {
        v / 262144
    } else if p == 1 {
        (v / 4096) % 64
    } else if p == 2 {
        (v / 64) % 64
    } else {
        v % 64
    }
}

/// Padded base64 in the standard alphabet (RFC 4648, section 4): four characters for every
/// three bytes, `=` in place of those that no byte reaches.
pub open spec fn text_of(bytes: Seq<u8>) -> Seq<char> {
    Seq::new(
        4 * ((bytes.len() + 2) / 3),
        |i: int|
            if 3 * (i / 4) + i % 4 > bytes.len() {
                '='
            } else {
                symbol(sextet(group(bytes, i / 4), i % 4))
            },
    )
}

/// Whether `c` stands for itself inside a JSON string: printable ASCII but `"` and `\`.
pub open spec fn is_plain(c: char) -> bool {
    ' ' <= c <= '~' && c != '"' && c != '\\'
}

/// An error of the base64 decoder.
#[verifier::external_type_specification]
#[verifier::external_body]
pub struct ExDecodeError(base64::DecodeError);

/// Calls `base64::Engine::encode` on `base64::engine::general_purpose::STANDARD`: the
/// standard alphabet, with padding. Trusted: the string is `text_of` the bytes. The length of
/// the text does not overflow, as no slice is longer than `isize::MAX` bytes.
#[verifier::external_body]
pub(crate) fn encode(bytes: &[u8]) -> (text: String)
    ensures
        text@ == text_of(bytes@),
{
    base64::engine::general_purpose::STANDARD.encode(bytes)
}

/// The error that the base64 decoder gives on a text that is the encoding of no bytes.
pub uninterp spec fn decode_failure(text: Seq<char>) -> base64::DecodeError;

/// Calls `base64::Engine::decode` on `base64::engine::general_purpose::STANDARD`, which
/// demands canonical padding and refuses set bits behind the last byte. Trusted: it gives
/// back exactly the bytes that `text` is the encoding of, and fails on a text that is the
/// encoding of none. Its error depends on the text alone; which error it is for which text is
/// not stated.
#[verifier::external_body]
pub(crate) fn decode(text: &str) -> (r: Result<Vec<u8>, base64::DecodeError>)
    ensures
        match r {
            Ok(bytes) => text_of(bytes@) == text@,
            Err(e) => {
                &&& forall|bytes: Seq<u8>| #[trigger] text_of(bytes) != text@
                &&& e == decode_failure(text@)
            },
        },
{
    base64::engine::general_purpose::STANDARD.decode(text)
}

proof fn lemma_symbol(v: int, w: int)
    requires
        0 <= v < 64,
        0 <= w < 64,
    ensures
        symbol(v) != '=',
        is_plain(symbol(v)),
        symbol(v) == symbol(w) ==> v == w,
{
}

/// The four six-bit values of a group give its bytes back.
pub(crate) proof fn lemma_group_bytes(a: int, b: int, c: int)
    requires
        0 <= a < 256,
        0 <= b < 256,
        0 <= c < 256,
    ensures
        ({
            let v = 65536 * a + 256 * b + c;
            &&& forall|p: int| 0 <= p < 4 ==> 0 <= #[trigger] sextet(v, p) < 64
            &&& a == 4 * sextet(v, 0) + sextet(v, 1) / 16
            &&& b == 16 * (sextet(v, 1) % 16) + sextet(v, 2) / 4
            &&& c == 64 * (sextet(v, 2) % 4) + sextet(v, 3)
        }),
{
    let (x, y, z) = (a as u32, b as u32, c as u32);
    let v = (65536 * x + 256 * y + z) as u32;
    assert(v / 262144 < 64 && x == 4 * (v / 262144) + ((v / 4096) % 64) / 16 && y == 16 * (((v
        / 4096) % 64) % 16) + ((v / 64) % 64) / 4 && z == 64 * (((v / 64) % 64) % 4) + v % 64)
        by (bit_vector)
        requires
            x < 256,
            y < 256,
            z < 256,
            v == (65536 * x + 256 * y + z) as u32,
    ;
}

/// Two byte strings with one text are the same.
pub proof fn lemma_text_is_injective(a: Seq<u8>, b: Seq<u8>)
    requires
        text_of(a) == text_of(b),
    ensures
        a == b,
{
    lemma_text_length(a, b);
    assert forall|i: int| 0 <= i < a.len() implies a[i] == b[i] by {
        lemma_text_byte(a, b, i);
    }
    assert(a =~= b);
}

/// The text tells how many bytes it encodes.
proof fn lemma_text_length(a: Seq<u8>, b: Seq<u8>)
    requires
        text_of(a) == text_of(b),
    ensures
        a.len() == b.len(),
{
    if a.len() < b.len() {
        lemma_longer_text(a, b);
    } else if b.len() < a.len() {
        lemma_longer_text(b, a);
    }
}

proof fn lemma_longer_text(a: Seq<u8>, b: Seq<u8>)
    requires
        a.len() < b.len(),
    ensures
        text_of(a) != text_of(b),
{
    if text_of(a) == text_of(b) {
        assert(text_of(a).len() == text_of(b).len());
        let g = (b.len() - 1) / 3;
        let m = b.len() - 3 * g;
        let i = 4 * g + m;
        if m == 1 {
            assert(false);
        }
        assert(text_of(a)[i] == '=');
        lemma_group_bytes(
            byte_or_zero(b, 3 * g),
            byte_or_zero(b, 3 * g + 1),
            byte_or_zero(b, 3 * g + 2),
        );
        assert(i / 4 == g);
        lemma_symbol(sextet(group(b, g), i % 4), 0);
        assert(false);
    }
}

proof fn lemma_text_byte(a: Seq<u8>, b: Seq<u8>, i: int)
    requires
        text_of(a) == text_of(b),
        a.len() == b.len(),
        0 <= i < a.len(),
    ensures
        a[i] == b[i],
{
    let g = i / 3;
    assert forall|s: Seq<u8>, p: int| 0 <= p < 4 implies 0 <= #[trigger] sextet(group(s, g), p)
        < 64 by {
        lemma_group_bytes(
            byte_or_zero(s, 3 * g),
            byte_or_zero(s, 3 * g + 1),
            byte_or_zero(s, 3 * g + 2),
        );
    }
    assert forall|p: int| 0 <= p < 4 && 3 * g + p <= a.len() implies sextet(group(a, g), p)
        == #[trigger] sextet(group(b, g), p) by {
        let k = 4 * g + p;
        assert(k / 4 == g && k % 4 == p);
        assert(k < text_of(a).len());
        assert(text_of(a)[k] == symbol(sextet(group(a, g), p)));
        assert(text_of(b)[k] == symbol(sextet(group(b, g), p)));
        lemma_symbol(sextet(group(a, g), p), sextet(group(b, g), p));
    }
    lemma_group_bytes(
        byte_or_zero(a, 3 * g),
        byte_or_zero(a, 3 * g + 1),
        byte_or_zero(a, 3 * g + 2),
    );
    lemma_group_bytes(
        byte_or_zero(b, 3 * g),
        byte_or_zero(b, 3 * g + 1),
        byte_or_zero(b, 3 * g + 2),
    );
    assert(sextet(group(a, g), i % 3 + 1) == sextet(group(b, g), i % 3 + 1));
    assert(sextet(group(a, g), i % 3) == sextet(group(b, g), i % 3));
}

/// A base64 text needs no escape in a JSON string.
pub proof fn lemma_text_is_plain(bytes: Seq<u8>)
    ensures
        forall|i: int| 0 <= i < text_of(bytes).len() ==> is_plain(#[trigger] text_of(bytes)[i]),
{
    assert forall|i: int| 0 <= i < text_of(bytes).len() implies is_plain(
        #[trigger] text_of(bytes)[i],
    ) by {
        let g = i / 4;
        lemma_group_bytes(
            byte_or_zero(bytes, 3 * g),
            byte_or_zero(bytes, 3 * g + 1),
            byte_or_zero(bytes, 3 * g + 2),
        );
        lemma_symbol(sextet(group(bytes, g), i % 4), 0);
    }
}

} // verus!
