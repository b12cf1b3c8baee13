//! Identifier flavor of the binary-text codec: 16-byte identifiers against
//! their canonical 36-character hyphenated hexadecimal form, with the empty
//! blob standing for the empty token.
use vstd::prelude::*;

use crate::DecodingError;
use crate::EncodingError;

verus! {

// ---------------------------------------------------------------------------
// Hexadecimal digits.
// ---------------------------------------------------------------------------
/// Whether `c` is a hexadecimal digit, either case.
pub open spec fn is_hex_char(c: char) -> bool {
    ||| '0' <= c && c <= '9'
    ||| 'a' <= c && c <= 'f'
    ||| 'A' <= c && c <= 'F'
}

/// The value of a hexadecimal digit.
pub open spec fn hex_val_of(c: char) -> u8 {
    if '0' <= c && c <= '9' {
        ((c as int) - ('0' as int)) as u8
    } else if 'a' <= c && c <= 'f' {
        ((c as int) - ('a' as int) + 10) as u8
    } else {
        ((c as int) - ('A' as int) + 10) as u8
    }
}

/// The lowercase digit of a value below 16: rendering uses lowercase.
pub open spec fn hex_char_of(v: u8) -> char {
    if v < 10 {
        (('0' as int) + v) as char
    } else {
        (('a' as int) + v - 10) as char
    }
}

// ---------------------------------------------------------------------------
// The canonical 8-4-4-4-12 shape: 32 digits with hyphens at four fixed
// positions.
// ---------------------------------------------------------------------------
/// Whether position `i` of the canonical form holds a hyphen.
pub open spec fn is_gap(i: int) -> bool {
    i == 8 || i == 13 || i == 18 || i == 23
}

/// How many hyphens precede position `i`.
pub open spec fn gaps_before(i: int) -> int {
    if i < 8 {
        0
    } else if i < 13 {
        1
    } else if i < 18 {
        2
    } else if i < 23 {
        3
    } else {
        4
    }
}

/// The half-byte that digit `d` of the 32 digits stands for: high halves
/// come first.
pub open spec fn nibble_of(b: Seq<u8>, d: int) -> u8 {
    if d % 2 == 0 {
        b[d / 2] >> 4
    } else {
        b[d / 2] & 0x0F
    }
}

/// The canonical rendering of a 16-byte identifier.
pub open spec fn spec_id_render(b: Seq<u8>) -> Seq<char> {
    Seq::new(
        36,
        |i: int|
            if is_gap(i) {
                '-'
            } else {
                hex_char_of(nibble_of(b, i - gaps_before(i)))
            },
    )
}

/// Whether position `i` of a token has the shape the canonical form asks
/// of it: a hyphen at the gaps, a hexadecimal digit elsewhere.
pub open spec fn position_ok(s: Seq<char>, i: int) -> bool {
    if is_gap(i) {
        s[i] == '-'
    } else {
        is_hex_char(s[i])
    }
}

/// A well-formed canonical identifier token: exactly 36 characters, hyphens
/// at the four gaps, hexadecimal digits (either case) everywhere else.
pub open spec fn spec_uuid_valid(s: Seq<char>) -> bool {
    &&& s.len() == 36
    &&& forall|i: int| 0 <= i < 36 ==> #[trigger] position_ok(s, i)
}

/// The position of the first digit of byte `j` within the hyphenated form.
pub open spec fn digit_pos(j: int) -> int {
    2 * j + if j < 4 {
        0int
    } else if j < 6 {
        1int
    } else if j < 8 {
        2int
    } else if j < 10 {
        3int
    } else {
        4int
    }
}

/// The 16 bytes a well-formed token stands for.
pub open spec fn spec_uuid_bytes(s: Seq<char>) -> Seq<u8> {
    Seq::new(16, |j: int| (hex_val_of(s[digit_pos(j)]) << 4) | hex_val_of(s[digit_pos(j) + 1]))
}

// ---------------------------------------------------------------------------
// The scalar mapping, empty token included.
// ---------------------------------------------------------------------------
/// What the encoder produces on a blob it accepts: the empty blob gives
/// the empty token, a 16-byte blob its canonical rendering.
pub open spec fn spec_id_encode(b: Seq<u8>) -> Seq<char> {
    if b.len() == 0 {
        Seq::<char>::empty()
    } else {
        spec_id_render(b)
    }
}

/// A token the decoder accepts: empty, or well-formed canonical.
pub open spec fn spec_id_token_valid(s: Seq<char>) -> bool {
    s.len() == 0 || spec_uuid_valid(s)
}

/// The blob a valid token decodes to.
pub open spec fn spec_id_decode(s: Seq<char>) -> Seq<u8> {
    if s.len() == 0 {
        Seq::<u8>::empty()
    } else {
        spec_uuid_bytes(s)
    }
}

// ---------------------------------------------------------------------------
// Laws of the identifier form.
// ---------------------------------------------------------------------------
/// Each value below 16 renders to a hexadecimal digit that reads back to
/// the same value.
proof fn lemma_hex_inverse(v: u8)
    requires
        v < 16,
    ensures
        is_hex_char(hex_char_of(v)),
        hex_val_of(hex_char_of(v)) == v,
{
}

/// A byte is put back together from its two halves.
proof fn lemma_halves(x: u8)
    ensures
        x >> 4 < 16,
        x & 0x0F < 16,
        ((x >> 4) << 4) | (x & 0x0F) == x,
{
    assert(x >> 4 < 16 && x & 0x0F < 16 && (((x >> 4) << 4) | (x & 0x0F)) == x) by (bit_vector);
}

/// Round trip of the identifier flavor: on a blob of length 0 or 16 the
/// encoding is a token the decoder accepts, and decoding it gives the
/// blob back.
pub proof fn lemma_id_round_trip(b: Seq<u8>)
    requires
        b.len() == 0 || b.len() == 16,
    ensures
        spec_id_token_valid(spec_id_encode(b)),
        spec_id_decode(spec_id_encode(b)) == b,
{
    if b.len() == 0 {
        assert(spec_id_decode(spec_id_encode(b)) =~= b);
    } else {
        let s = spec_id_render(b);
        assert forall|i: int| 0 <= i < 36 implies #[trigger] position_ok(s, i) by {
            if !is_gap(i) {
                let d = i - gaps_before(i);
                vstd::arithmetic::div_mod::lemma_fundamental_div_mod(d, 2);
                lemma_halves(b[d / 2]);
                lemma_hex_inverse(nibble_of(b, d));
            }
        }
        assert(spec_uuid_valid(s));
        let back = spec_uuid_bytes(s);
        assert forall|j: int| 0 <= j < 16 implies back[j] == b[j] by {
            let p = digit_pos(j);
            vstd::arithmetic::div_mod::lemma_fundamental_div_mod_converse(2 * j, 2, j, 0);
            vstd::arithmetic::div_mod::lemma_fundamental_div_mod_converse(2 * j + 1, 2, j, 1);
            lemma_halves(b[j]);
            lemma_hex_inverse(b[j] >> 4);
            lemma_hex_inverse(b[j] & 0x0F);
            assert(s[p] == hex_char_of(b[j] >> 4));
            assert(s[p + 1] == hex_char_of(b[j] & 0x0F));
        }
        assert(back =~= b);
    }
}

/// Whether `c` is a digit the renderer itself produces: lowercase only.
pub open spec fn is_lower_hex_char(c: char) -> bool {
    ('0' <= c && c <= '9') || ('a' <= c && c <= 'f')
}

/// A hexadecimal digit's value is below 16.
proof fn lemma_hex_val_bound(c: char)
    requires
        is_hex_char(c),
    ensures
        hex_val_of(c) < 16,
{
}

/// A lowercase digit survives reading and re-rendering.
proof fn lemma_lower_hex_inverse(c: char)
    requires
        is_lower_hex_char(c),
    ensures
        hex_char_of(hex_val_of(c)) == c,
{
}

/// Canonicity of the rendering: a well-formed token written with
/// lowercase digits re-renders to exactly itself after a decode and an
/// encode.
pub proof fn lemma_id_token_round_trip(s: Seq<char>)
    requires
        spec_uuid_valid(s),
        forall|i: int| 0 <= i < 36 && !is_gap(i) ==> is_lower_hex_char(#[trigger] s[i]),
    ensures
        spec_id_render(spec_uuid_bytes(s)) == s,
{
    let b = spec_uuid_bytes(s);
    assert forall|i: int| 0 <= i < 36 implies spec_id_render(b)[i] == s[i] by {
        assert(position_ok(s, i));
        if !is_gap(i) {
            let d = i - gaps_before(i);
            let j = d / 2;
            let par = d % 2;
            vstd::arithmetic::div_mod::lemma_fundamental_div_mod(d, 2);
            assert(digit_pos(j) + par == i);
            assert(position_ok(s, digit_pos(j)));
            assert(position_ok(s, digit_pos(j) + 1));
            let vh = hex_val_of(s[digit_pos(j)]);
            let vl = hex_val_of(s[digit_pos(j) + 1]);
            lemma_hex_val_bound(s[digit_pos(j)]);
            lemma_hex_val_bound(s[digit_pos(j) + 1]);
            assert(b[j] == (vh << 4) | vl);
            assert(vh < 16 && vl < 16 ==> ((vh << 4) | vl) >> 4 == vh) by (bit_vector);
            assert(vh < 16 && vl < 16 ==> ((vh << 4) | vl) & 0x0F == vl) by (bit_vector);
            lemma_lower_hex_inverse(s[i]);
        }
    }
    assert(spec_id_render(b) =~= s);
}

/// Order preservation over sequences: tokens encoded from blobs of length
/// 0 or 16 decode back to the same blobs, in the same order.
pub proof fn lemma_id_sequence_round_trip(blobs: Seq<Seq<u8>>, tokens: Seq<Seq<char>>)
    requires
        tokens.len() == blobs.len(),
        forall|i: int| 0 <= i < blobs.len() ==> (#[trigger] blobs[i]).len() == 0 || blobs[i].len()
            == 16,
        forall|i: int| 0 <= i < blobs.len() ==> #[trigger] tokens[i] == spec_id_encode(blobs[i]),
    ensures
        forall|i: int| 0 <= i < tokens.len() ==> spec_id_token_valid(#[trigger] tokens[i]),
        forall|i: int| 0 <= i < tokens.len() ==> #[trigger] spec_id_decode(tokens[i]) == blobs[i],
{
    assert forall|i: int|
        0 <= i < tokens.len() implies spec_id_token_valid(#[trigger] tokens[i]) && spec_id_decode(
        tokens[i],
    ) == blobs[i] by {
        lemma_id_round_trip(blobs[i]);
    }
}

// ---------------------------------------------------------------------------
// Trusted calls into the uuid7 crate.
// ---------------------------------------------------------------------------
/// Relies on uuid7::Uuid: From<u128> stores the big-endian bytes of the
/// value, undoing u128::from_be_bytes, and Display renders the 16 stored
/// bytes as 32 lowercase hexadecimal digits, high half first, with hyphens
/// after digits 8, 12, 16 and 20.
#[verifier::external_body]
fn render_via_crate(blob: &[u8]) -> (token: String)
    requires
        blob@.len() == 16,
    ensures
        token@ == spec_id_render(blob@),
{
    let mut bytes = [0u8; 16];
    bytes.copy_from_slice(blob);
    let value = u128::from_be_bytes(bytes);
    uuid7::Uuid::from(value).to_string()
}

/// Relies on uuid7::Uuid::from_str: on a 36-character token with hyphens
/// at the canonical positions and hexadecimal digits elsewhere it returns
/// the identifier whose bytes are the digits' values, high half first;
/// Uuid::as_bytes hands those bytes out. The error arm is unreachable on
/// such tokens.
#[verifier::external_body]
fn parse_via_crate(token: &str) -> (blob: Vec<u8>)
    requires
        spec_uuid_valid(token@),
    ensures
        blob@ == spec_uuid_bytes(token@),
{
    match token.parse::<uuid7::Uuid>() {
        Ok(id) => id.as_bytes().to_vec(),
        Err(_) => Vec::new(),
    }
}

// ---------------------------------------------------------------------------
// The codec itself.
// ---------------------------------------------------------------------------
/// Encodes a blob as an identifier token. The empty blob yields the empty
/// token; a 16-byte blob its canonical rendering; any other length fails
/// with `InvalidLength` rather than truncate or pad.
pub fn encode_scalar(blob: &[u8]) -> (r: Result<String, EncodingError>)
    ensures
        r is Ok <==> (blob@.len() == 0 || blob@.len() == 16),
        r matches Ok(token) ==> token@ == spec_id_encode(blob@),
        r is Err ==> r == Err::<String, EncodingError>(EncodingError::InvalidLength),
{
    let n = blob.len();
    if n == 0 {
        Ok(String::new())
    } else if n == 16 {
        Ok(render_via_crate(blob))
    } else {
        Err(EncodingError::InvalidLength)
    }
}

/// Whether a non-empty token has the canonical shape.
fn uuid_well_formed(token: &str) -> (ok: bool)
    ensures
        ok == spec_uuid_valid(token@),
{
    if !token.is_ascii() {
        proof {
            let i = choose|i: int|
                0 <= i < token@.len() && !('\0' <= token@[i] && token@[i] <= '\u{7f}');
            assert(!position_ok(token@, i));
        }
        return false;
    }
    proof {
        vstd::string::is_ascii_spec_bytes(token);
    }
    let bytes = token.as_bytes();
    let n = bytes.len();
    if n != 36 {
        return false;
    }
    let mut i: usize = 0;
    while i < 36
        invariant
            0 <= i <= 36,
            token@.len() == 36,
            token.is_ascii(),
            bytes@ == Seq::new(token@.len(), |j: int| token@[j] as u8),
            forall|j: int| 0 <= j < i ==> #[trigger] position_ok(token@, j),
        decreases 36 - i,
    {
        let b = bytes[i];
        proof {
            assert(token@[i as int] as u8 == b);
            assert('\0' <= token@[i as int] && token@[i as int] <= '\u{7f}');
        }
        if i == 8 || i == 13 || i == 18 || i == 23 {
            if b != 45 {
                proof {
                    assert(!position_ok(token@, i as int));
                }
                return false;
            }
        } else {
            if !((b >= 48 && b <= 57) || (b >= 97 && b <= 102) || (b >= 65 && b <= 70)) {
                proof {
                    assert(!position_ok(token@, i as int));
                }
                return false;
            }
        }
        proof {
            assert(position_ok(token@, i as int));
        }
        i = i + 1;
    }
    true
}

/// Decodes an identifier token back to its bytes. The empty token gives
/// the empty blob; a well-formed canonical token its 16 bytes, high half
/// of each byte first; anything else fails with `InvalidIdentifier`.
pub fn decode_scalar(token: &str) -> (r: Result<Vec<u8>, DecodingError>)
    ensures
        r is Ok <==> spec_id_token_valid(token@),
        r matches Ok(blob) ==> blob@ == spec_id_decode(token@),
        r is Err ==> r == Err::<Vec<u8>, DecodingError>(DecodingError::InvalidIdentifier),
{
    if token.is_empty() {
        Ok(Vec::new())
    } else if uuid_well_formed(token) {
        Ok(parse_via_crate(token))
    } else {
        Err(DecodingError::InvalidIdentifier)
    }
}

/// Encodes each blob of an ordered sequence, in order, failing fast: the
/// first blob whose length is neither 0 nor 16 aborts the whole sequence
/// with `InvalidLength`, and later blobs are not processed.
pub fn encode_sequence(blobs: &Vec<Vec<u8>>) -> (r: Result<Vec<String>, EncodingError>)
    ensures
        r is Ok <==> (forall|i: int|
            0 <= i < blobs@.len() ==> (#[trigger] blobs@[i]@.len() == 0 || blobs@[i]@.len()
                == 16)),
        r matches Ok(tokens) ==> tokens@.len() == blobs@.len(),
        r matches Ok(tokens) ==> (forall|i: int|
            0 <= i < blobs@.len() ==> #[trigger] tokens@[i]@ == spec_id_encode(blobs@[i]@)),
        r is Err ==> r == Err::<Vec<String>, EncodingError>(EncodingError::InvalidLength),
{
    let mut tokens: Vec<String> = Vec::with_capacity(blobs.len());
    let mut i: usize = 0;
    while i < blobs.len()
        invariant
            0 <= i <= blobs@.len(),
            tokens@.len() == i,
            forall|j: int| 0 <= j < i ==> (#[trigger] blobs@[j]@.len() == 0 || blobs@[j]@.len()
                == 16),
            forall|j: int| 0 <= j < i ==> #[trigger] tokens@[j]@ == spec_id_encode(blobs@[j]@),
        decreases blobs@.len() - i,
    {
        match encode_scalar(blobs[i].as_slice()) {
            Ok(token) => {
                tokens.push(token);
            },
            Err(e) => {
                return Err(e);
            },
        }
        i = i + 1;
    }
    Ok(tokens)
}

/// Decodes an ordered sequence of identifier tokens, failing fast: the
/// first token neither empty nor canonical aborts the whole sequence with
/// `InvalidIdentifier`, and no partial result is returned.
pub fn decode_sequence(tokens: &Vec<String>) -> (r: Result<Vec<Vec<u8>>, DecodingError>)
    ensures
        r is Ok <==> (forall|i: int|
            0 <= i < tokens@.len() ==> spec_id_token_valid(#[trigger] tokens@[i]@)),
        r matches Ok(blobs) ==> blobs@.len() == tokens@.len(),
        r matches Ok(blobs) ==> (forall|i: int|
            0 <= i < tokens@.len() ==> #[trigger] blobs@[i]@ == spec_id_decode(tokens@[i]@)),
        r is Err ==> r == Err::<Vec<Vec<u8>>, DecodingError>(DecodingError::InvalidIdentifier),
{
    let mut blobs: Vec<Vec<u8>> = Vec::with_capacity(tokens.len());
    let mut i: usize = 0;
    while i < tokens.len()
        invariant
            0 <= i <= tokens@.len(),
            blobs@.len() == i,
            forall|j: int| 0 <= j < i ==> spec_id_token_valid(#[trigger] tokens@[j]@),
            forall|j: int| 0 <= j < i ==> #[trigger] blobs@[j]@ == spec_id_decode(tokens@[j]@),
        decreases tokens@.len() - i,
    {
        match decode_scalar(tokens[i].as_str()) {
            Ok(blob) => {
                blobs.push(blob);
            },
            Err(e) => {
                return Err(e);
            },
        }
        i = i + 1;
    }
    Ok(blobs)
}

} // verus!
