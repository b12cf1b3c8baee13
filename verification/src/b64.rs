//! Base64 flavor of the binary-text codec: arbitrary blobs against the
//! unpadded URL-safe alphabet (`A`-`Z`, `a`-`z`, `0`-`9`, `-`, `_`).
use vstd::prelude::*;

use crate::DecodingError;

verus! {

// ---------------------------------------------------------------------------
// The alphabet.
// ---------------------------------------------------------------------------
/// Whether `c` belongs to the URL-safe alphabet. Padding (`=`) and the
/// standard alphabet's `+` and `/` are not in it.
pub open spec fn is_b64_char(c: char) -> bool {
    ||| 'A' <= c && c <= 'Z'
    ||| 'a' <= c && c <= 'z'
    ||| '0' <= c && c <= '9'
    ||| c == '-'
    ||| c == '_'
}

/// The six-bit value a character of the alphabet stands for.
pub open spec fn b64_val_of(c: char) -> u8 {
    if 'A' <= c && c <= 'Z' {
        ((c as int) - ('A' as int)) as u8
    } else if 'a' <= c && c <= 'z' {
        ((c as int) - ('a' as int) + 26) as u8
    } else if '0' <= c && c <= '9' {
        ((c as int) - ('0' as int) + 52) as u8
    } else if c == '-' {
        62
    } else {
        63
    }
}

/// The character of the alphabet standing for a six-bit value.
pub open spec fn b64_char_of(v: u8) -> char {
    if v < 26 {
        (('A' as int) + v) as char
    } else if v < 52 {
        (('a' as int) + v - 26) as char
    } else if v < 62 {
        (('0' as int) + v - 52) as char
    } else if v == 62 {
        '-'
    } else {
        '_'
    }
}

// ---------------------------------------------------------------------------
// Encoding: each group of three bytes becomes four characters; a final
// group of one or two bytes becomes two or three characters.
// ---------------------------------------------------------------------------
/// The byte at `i`, or zero past the end: absent bytes of a final partial
/// group contribute zero bits.
pub open spec fn byte_at(b: Seq<u8>, i: int) -> u8 {
    if 0 <= i < b.len() {
        b[i]
    } else {
        0
    }
}

/// The six bits at position `t` of a four-character group, drawn from the
/// preceding byte `prev` and the current byte `cur` of its three-byte group.
pub open spec fn sextet(t: int, prev: u8, cur: u8) -> u8 {
    if t == 0 {
        cur >> 2
    } else if t == 1 {
        ((prev & 0x03) << 4) | (cur >> 4)
    } else if t == 2 {
        ((prev & 0x0F) << 2) | (cur >> 6)
    } else {
        prev & 0x3F
    }
}

/// Length of the encoding of `n` bytes.
pub open spec fn b64_enc_len(n: int) -> int {
    4 * (n / 3) + if n % 3 == 0 {
        0int
    } else {
        n % 3 + 1
    }
}

/// The URL-safe, unpadded encoding of a byte sequence.
pub open spec fn spec_b64_encode(b: Seq<u8>) -> Seq<char> {
    Seq::new(
        b64_enc_len(b.len() as int) as nat,
        |j: int|
            b64_char_of(
                sextet(j % 4, byte_at(b, 3 * (j / 4) + j % 4 - 1), byte_at(b, 3 * (j / 4) + j % 4)),
            ),
    )
}

// ---------------------------------------------------------------------------
// Decoding: four characters give back three bytes; a canonical token's
// length is never 1 more than a multiple of 4, and the bits of its last
// character that fall past the final byte are zero.
// ---------------------------------------------------------------------------
/// A token the decoder accepts: alphabet characters only, canonical
/// length, zero trailing bits.
pub open spec fn spec_b64_valid(s: Seq<char>) -> bool {
    &&& forall|i: int| 0 <= i < s.len() ==> is_b64_char(#[trigger] s[i])
    &&& s.len() % 4 != 1
    &&& s.len() % 4 == 2 ==> b64_val_of(s[s.len() - 1]) & 0x0F == 0
    &&& s.len() % 4 == 3 ==> b64_val_of(s[s.len() - 1]) & 0x03 == 0
}

/// Length of the decoding of an `n`-character token.
pub open spec fn b64_dec_len(n: int) -> int {
    3 * (n / 4) + if n % 4 == 2 {
        1int
    } else if n % 4 == 3 {
        2int
    } else {
        0int
    }
}

/// The byte at position `r` of a three-byte group, reassembled from the
/// six-bit values `hi` and `lo` of two adjacent characters.
pub open spec fn glue(r: int, hi: u8, lo: u8) -> u8 {
    if r == 0 {
        (hi << 2) | (lo >> 4)
    } else if r == 1 {
        ((hi & 0x0F) << 4) | (lo >> 2)
    } else {
        ((hi & 0x03) << 6) | lo
    }
}

/// The bytes a valid token decodes to.
pub open spec fn spec_b64_decode(s: Seq<char>) -> Seq<u8> {
    Seq::new(
        b64_dec_len(s.len() as int) as nat,
        |k: int|
            glue(
                k % 3,
                b64_val_of(s[4 * (k / 3) + k % 3]),
                b64_val_of(s[4 * (k / 3) + k % 3 + 1]),
            ),
    )
}

// ---------------------------------------------------------------------------
// Laws of the encoding.
// ---------------------------------------------------------------------------
/// Every six-bit group is below 64.
proof fn lemma_sextet_bound(t: int, prev: u8, cur: u8)
    ensures
        sextet(t, prev, cur) < 64,
{
    assert(cur >> 2 < 64) by (bit_vector);
    assert(((prev & 0x03) << 4) | (cur >> 4) < 64) by (bit_vector);
    assert(((prev & 0x0F) << 2) | (cur >> 6) < 64) by (bit_vector);
    assert(prev & 0x3F < 64) by (bit_vector);
}

/// The alphabet maps each six-bit value to a character of itself, and the
/// character maps back to the value.
proof fn lemma_alphabet_inverse(v: u8)
    requires
        v < 64,
    ensures
        is_b64_char(b64_char_of(v)),
        b64_val_of(b64_char_of(v)) == v,
{
}

/// Reassembling the first byte of a three-byte group from its two
/// six-bit groups gives the byte back.
proof fn lemma_glue_sextet_0(w: u8, x: u8, y: u8)
    ensures
        glue(0, sextet(0, w, x), sextet(1, x, y)) == x,
{
    assert(((x >> 2) << 2) | ((((x & 0x03) << 4) | (y >> 4)) >> 4) == x) by (bit_vector);
}

/// The same for the middle byte.
proof fn lemma_glue_sextet_1(w: u8, x: u8, y: u8)
    ensures
        glue(1, sextet(1, w, x), sextet(2, x, y)) == x,
{
    assert(((((w & 0x03) << 4) | (x >> 4)) & 0x0F) << 4 | ((((x & 0x0F) << 2) | (y >> 6)) >> 2)
        == x) by (bit_vector);
}

/// The same for the last byte.
proof fn lemma_glue_sextet_2(w: u8, x: u8, y: u8)
    ensures
        glue(2, sextet(2, w, x), sextet(3, x, y)) == x,
{
    assert(((((w & 0x0F) << 2) | (x >> 6)) & 0x03) << 6 | (x & 0x3F) == x) by (bit_vector);
}

/// Round trip of the base64 flavor: the encoding of any byte sequence is
/// a token the decoder accepts, and decoding it gives the bytes back.
pub proof fn lemma_b64_round_trip(b: Seq<u8>)
    ensures
        spec_b64_valid(spec_b64_encode(b)),
        spec_b64_decode(spec_b64_encode(b)) == b,
{
    let n = b.len() as int;
    let q = n / 3;
    let e = n % 3;
    vstd::arithmetic::div_mod::lemma_fundamental_div_mod(n, 3);
    let s = spec_b64_encode(b);
    let m = b64_enc_len(n);
    let ex: int = if e == 0 {
        0
    } else {
        e + 1
    };
    assert(m == 4 * q + ex);
    vstd::arithmetic::div_mod::lemma_fundamental_div_mod_converse(m, 4, q, ex);
    assert forall|j: int| 0 <= j < m implies is_b64_char(#[trigger] s[j]) by {
        lemma_sextet_bound(j % 4, byte_at(b, 3 * (j / 4) + j % 4 - 1), byte_at(b, 3 * (j / 4) + j % 4));
        lemma_alphabet_inverse(
            sextet(j % 4, byte_at(b, 3 * (j / 4) + j % 4 - 1), byte_at(b, 3 * (j / 4) + j % 4)),
        );
    }
    if e == 1 {
        let j = m - 1;
        vstd::arithmetic::div_mod::lemma_fundamental_div_mod_converse(j, 4, q, 1);
        let p = byte_at(b, 3 * q);
        lemma_sextet_bound(1, p, 0);
        lemma_alphabet_inverse(sextet(1, p, 0));
        assert((((p & 0x03) << 4) | (0u8 >> 4)) & 0x0F == 0) by (bit_vector);
    }
    if e == 2 {
        let j = m - 1;
        vstd::arithmetic::div_mod::lemma_fundamental_div_mod_converse(j, 4, q, 2);
        let p = byte_at(b, 3 * q + 1);
        lemma_sextet_bound(2, p, 0);
        lemma_alphabet_inverse(sextet(2, p, 0));
        assert((((p & 0x0F) << 2) | (0u8 >> 6)) & 0x03 == 0) by (bit_vector);
    }
    let d = spec_b64_decode(s);
    assert(d.len() == n);
    assert forall|k: int| 0 <= k < n implies d[k] == b[k] by {
        let g = k / 3;
        let r = k % 3;
        vstd::arithmetic::div_mod::lemma_fundamental_div_mod(k, 3);
        let j1 = 4 * g + r;
        vstd::arithmetic::div_mod::lemma_fundamental_div_mod_converse(j1, 4, g, r);
        vstd::arithmetic::div_mod::lemma_fundamental_div_mod_converse(j1 + 1, 4, g, r + 1);
        let w = byte_at(b, k - 1);
        let x = byte_at(b, k);
        let y = byte_at(b, k + 1);
        lemma_sextet_bound(r, w, x);
        lemma_sextet_bound(r + 1, x, y);
        lemma_alphabet_inverse(sextet(r, w, x));
        lemma_alphabet_inverse(sextet(r + 1, x, y));
        assert(j1 + 1 < m);
        if r == 0 {
            lemma_glue_sextet_0(w, x, y);
        } else if r == 1 {
            lemma_glue_sextet_1(w, x, y);
        } else {
            lemma_glue_sextet_2(w, x, y);
        }
    }
    assert(d =~= b);
}

/// A token holding `=`, `+` or `/` anywhere is one the decoder rejects:
/// those characters are outside the unpadded URL-safe alphabet.
pub proof fn lemma_b64_rejects_foreign_char(s: Seq<char>, i: int)
    requires
        0 <= i < s.len(),
        s[i] == '=' || s[i] == '+' || s[i] == '/',
    ensures
        !spec_b64_valid(s),
{
    assert(!is_b64_char(s[i]));
}

/// Order preservation over sequences: a list of tokens encoded from a
/// list of blobs decodes back to the same blobs, in the same order.
pub proof fn lemma_b64_sequence_round_trip(blobs: Seq<Seq<u8>>, tokens: Seq<Seq<char>>)
    requires
        tokens.len() == blobs.len(),
        forall|i: int| 0 <= i < blobs.len() ==> #[trigger] tokens[i] == spec_b64_encode(blobs[i]),
    ensures
        forall|i: int| 0 <= i < tokens.len() ==> spec_b64_valid(#[trigger] tokens[i]),
        forall|i: int| 0 <= i < tokens.len() ==> #[trigger] spec_b64_decode(tokens[i]) == blobs[i],
{
    assert forall|i: int|
        0 <= i < tokens.len() implies spec_b64_valid(#[trigger] tokens[i]) && spec_b64_decode(
        tokens[i],
    ) == blobs[i] by {
        lemma_b64_round_trip(blobs[i]);
    }
}

// ---------------------------------------------------------------------------
// Trusted calls into the base64 crate.
// ---------------------------------------------------------------------------
/// Relies on base64::encode_config with URL_SAFE_NO_PAD: it renders each
/// three-byte group as four characters of the URL-safe alphabet per RFC
/// 4648 section 5, a final partial group as two or three characters, and
/// appends no padding. Its buffer arithmetic cannot overflow: a slice in
/// memory is under `isize::MAX` bytes, and four thirds of that fits in
/// `usize`.
#[verifier::external_body]
fn encode_via_crate(blob: &[u8]) -> (token: String)
    ensures
        token@ == spec_b64_encode(blob@),
{
    base64::encode_config(blob, base64::URL_SAFE_NO_PAD)
}

/// Relies on base64::decode_config with URL_SAFE_NO_PAD: on a token made
/// only of URL-safe alphabet characters, of canonical length and with zero
/// trailing bits, it returns the RFC 4648 section 5 decoding. The error
/// arm is unreachable on such tokens, and the buffer estimate cannot
/// overflow: a string in memory is under `isize::MAX` bytes.
#[verifier::external_body]
fn decode_via_crate(token: &str) -> (blob: Vec<u8>)
    requires
        spec_b64_valid(token@),
    ensures
        blob@ == spec_b64_decode(token@),
{
    match base64::decode_config(token, base64::URL_SAFE_NO_PAD) {
        Ok(v) => v,
        Err(_) => Vec::new(),
    }
}

// ---------------------------------------------------------------------------
// The codec itself.
// ---------------------------------------------------------------------------
/// Encodes a blob as an unpadded URL-safe token. Never fails; the empty
/// blob yields the empty token with no special case.
pub fn encode_scalar(blob: &[u8]) -> (token: String)
    ensures
        token@ == spec_b64_encode(blob@),
{
    encode_via_crate(blob)
}

/// Whether a token is one the decoder accepts.
fn token_well_formed(token: &str) -> (ok: bool)
    ensures
        ok == spec_b64_valid(token@),
{
    if !token.is_ascii() {
        proof {
            let i = choose|i: int|
                0 <= i < token@.len() && !('\0' <= token@[i] && token@[i] <= '\u{7f}');
            assert(!is_b64_char(token@[i]));
        }
        return false;
    }
    proof {
        vstd::string::is_ascii_spec_bytes(token);
    }
    let bytes = token.as_bytes();
    let n = bytes.len();
    let mut i: usize = 0;
    let mut last_val: u8 = 0;
    while i < n
        invariant
            0 <= i <= n,
            n == token@.len(),
            token.is_ascii(),
            bytes@ == Seq::new(token@.len(), |j: int| token@[j] as u8),
            forall|j: int| 0 <= j < i ==> is_b64_char(#[trigger] token@[j]),
            i > 0 ==> last_val == b64_val_of(token@[i - 1]),
        decreases n - i,
    {
        let b = bytes[i];
        proof {
            assert(token@[i as int] as u8 == b);
            assert('\0' <= token@[i as int] && token@[i as int] <= '\u{7f}');
        }
        if b >= 65 && b <= 90 {
            last_val = b - 65;
        } else if b >= 97 && b <= 122 {
            last_val = (b - 97) + 26;
        } else if b >= 48 && b <= 57 {
            last_val = (b - 48) + 52;
        } else if b == 45 {
            last_val = 62;
        } else if b == 95 {
            last_val = 63;
        } else {
            proof {
                assert(!is_b64_char(token@[i as int]));
            }
            return false;
        }
        proof {
            assert(is_b64_char(token@[i as int]));
            assert(b64_val_of(token@[i as int]) == last_val);
        }
        i = i + 1;
    }
    if n % 4 == 1 {
        return false;
    }
    if n % 4 == 2 && last_val & 0x0F != 0 {
        return false;
    }
    if n % 4 == 3 && last_val & 0x03 != 0 {
        return false;
    }
    true
}

/// Decodes an unpadded URL-safe token back to its bytes. Succeeds exactly
/// on valid tokens; any character outside the alphabet (`=`, `+` and `/`
/// included), a length 1 more than a multiple of 4, or nonzero trailing
/// bits fail with `InvalidBase64`.
pub fn decode_scalar(token: &str) -> (r: Result<Vec<u8>, DecodingError>)
    ensures
        r is Ok <==> spec_b64_valid(token@),
        r matches Ok(blob) ==> blob@ == spec_b64_decode(token@),
        r is Err ==> r == Err::<Vec<u8>, DecodingError>(DecodingError::InvalidBase64),
{
    if token_well_formed(token) {
        Ok(decode_via_crate(token))
    } else {
        Err(DecodingError::InvalidBase64)
    }
}

/// Encodes each blob of an ordered sequence, in order. Never fails and
/// never reorders; the output has one token per blob.
pub fn encode_sequence(blobs: &Vec<Vec<u8>>) -> (tokens: Vec<String>)
    ensures
        tokens@.len() == blobs@.len(),
        forall|i: int|
            0 <= i < blobs@.len() ==> #[trigger] tokens@[i]@ == spec_b64_encode(blobs@[i]@),
{
    let mut tokens: Vec<String> = Vec::with_capacity(blobs.len());
    let mut i: usize = 0;
    while i < blobs.len()
        invariant
            0 <= i <= blobs@.len(),
            tokens@.len() == i,
            forall|j: int|
                0 <= j < i ==> #[trigger] tokens@[j]@ == spec_b64_encode(blobs@[j]@),
        decreases blobs@.len() - i,
    {
        let t = encode_scalar(blobs[i].as_slice());
        tokens.push(t);
        i = i + 1;
    }
    tokens
}

/// Decodes an ordered sequence of tokens, failing fast: the first invalid
/// token aborts the whole sequence with `InvalidBase64`, and no partial
/// result is returned. Succeeds exactly when every token is valid.
pub fn decode_sequence(tokens: &Vec<String>) -> (r: Result<Vec<Vec<u8>>, DecodingError>)
    ensures
        r is Ok <==> (forall|i: int|
            0 <= i < tokens@.len() ==> spec_b64_valid(#[trigger] tokens@[i]@)),
        r matches Ok(blobs) ==> blobs@.len() == tokens@.len(),
        r matches Ok(blobs) ==> (forall|i: int|
            0 <= i < tokens@.len() ==> #[trigger] blobs@[i]@ == spec_b64_decode(tokens@[i]@)),
        r is Err ==> r == Err::<Vec<Vec<u8>>, DecodingError>(DecodingError::InvalidBase64),
{
    let mut blobs: Vec<Vec<u8>> = Vec::with_capacity(tokens.len());
    let mut i: usize = 0;
    while i < tokens.len()
        invariant
            0 <= i <= tokens@.len(),
            blobs@.len() == i,
            forall|j: int| 0 <= j < i ==> spec_b64_valid(#[trigger] tokens@[j]@),
            forall|j: int| 0 <= j < i ==> #[trigger] blobs@[j]@ == spec_b64_decode(tokens@[j]@),
        decreases tokens@.len() - i,
    {
        match decode_scalar(tokens[i].as_str()) {
            Ok(blob) => {
                blobs.push(blob);
            },
            Err(e) => {
                return Err(e);
            },
        }
        i = i + 1;
    }
    Ok(blobs)
}

} // verus!
