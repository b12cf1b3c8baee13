//! Field-codec wiring: a field of a generated type is parameterized with a
//! `Flavor`, and these dispatchers route its blobs and tokens to the chosen
//! codec. The same functions serve a field of a composite type and a field
//! inside a tagged-union variant: the codec never learns the enclosing
//! shape.
use vstd::prelude::*;

use crate::b64;
use crate::id;
use crate::DecodingError;
use crate::EncodingError;

verus! {

/// The text encoding strategy attached to a byte-bearing field.
#[derive(Clone, Copy, Debug, PartialEq, Eq, Structural)]
pub enum Flavor {
    Base64,
    Identifier,
}

/// Whether the scalar encoder of `f` accepts a blob: the base64 flavor
/// accepts any length, the identifier flavor only 0 or 16 bytes.
pub open spec fn spec_encode_ok(f: Flavor, b: Seq<u8>) -> bool {
    match f {
        Flavor::Base64 => true,
        Flavor::Identifier => b.len() == 0 || b.len() == 16,
    }
}

/// The token the scalar encoder of `f` produces on a blob it accepts.
pub open spec fn spec_encode(f: Flavor, b: Seq<u8>) -> Seq<char> {
    match f {
        Flavor::Base64 => b64::spec_b64_encode(b),
        Flavor::Identifier => id::spec_id_encode(b),
    }
}

/// Whether the scalar decoder of `f` accepts a token.
pub open spec fn spec_token_valid(f: Flavor, s: Seq<char>) -> bool {
    match f {
        Flavor::Base64 => b64::spec_b64_valid(s),
        Flavor::Identifier => id::spec_id_token_valid(s),
    }
}

/// The blob a valid token of `f` decodes to.
pub open spec fn spec_decode(f: Flavor, s: Seq<char>) -> Seq<u8> {
    match f {
        Flavor::Base64 => b64::spec_b64_decode(s),
        Flavor::Identifier => id::spec_id_decode(s),
    }
}

/// The error the decoder of `f` reports, naming the flavor.
pub open spec fn decode_error_of(f: Flavor) -> DecodingError {
    match f {
        Flavor::Base64 => DecodingError::InvalidBase64,
        Flavor::Identifier => DecodingError::InvalidIdentifier,
    }
}

/// Encodes one field's blob with the flavor attached to the field.
pub fn encode_scalar(flavor: Flavor, blob: &[u8]) -> (r: Result<String, EncodingError>)
    ensures
        r is Ok <==> spec_encode_ok(flavor, blob@),
        r matches Ok(token) ==> token@ == spec_encode(flavor, blob@),
        r is Err ==> r == Err::<String, EncodingError>(EncodingError::InvalidLength),
{
    match flavor {
        Flavor::Base64 => Ok(b64::encode_scalar(blob)),
        Flavor::Identifier => id::encode_scalar(blob),
    }
}

/// Decodes one field's token with the flavor attached to the field.
pub fn decode_scalar(flavor: Flavor, token: &str) -> (r: Result<Vec<u8>, DecodingError>)
    ensures
        r is Ok <==> spec_token_valid(flavor, token@),
        r matches Ok(blob) ==> blob@ == spec_decode(flavor, token@),
        r is Err ==> r == Err::<Vec<u8>, DecodingError>(decode_error_of(flavor)),
{
    match flavor {
        Flavor::Base64 => b64::decode_scalar(token),
        Flavor::Identifier => id::decode_scalar(token),
    }
}

/// Encodes a repeated field's blobs in order, failing fast on the first
/// blob the flavor rejects.
pub fn encode_sequence(flavor: Flavor, blobs: &Vec<Vec<u8>>) -> (r: Result<
    Vec<String>,
    EncodingError,
>)
    ensures
        r is Ok <==> (forall|i: int|
            0 <= i < blobs@.len() ==> spec_encode_ok(flavor, #[trigger] blobs@[i]@)),
        r matches Ok(tokens) ==> tokens@.len() == blobs@.len(),
        r matches Ok(tokens) ==> (forall|i: int|
            0 <= i < blobs@.len() ==> #[trigger] tokens@[i]@ == spec_encode(flavor, blobs@[i]@)),
        r is Err ==> r == Err::<Vec<String>, EncodingError>(EncodingError::InvalidLength),
{
    match flavor {
        Flavor::Base64 => Ok(b64::encode_sequence(blobs)),
        Flavor::Identifier => id::encode_sequence(blobs),
    }
}

/// Decodes a repeated field's tokens in order, failing fast on the first
/// token the flavor rejects; no partial result is returned.
pub fn decode_sequence(flavor: Flavor, tokens: &Vec<String>) -> (r: Result<
    Vec<Vec<u8>>,
    DecodingError,
>)
    ensures
        r is Ok <==> (forall|i: int|
            0 <= i < tokens@.len() ==> spec_token_valid(flavor, #[trigger] tokens@[i]@)),
        r matches Ok(blobs) ==> blobs@.len() == tokens@.len(),
        r matches Ok(blobs) ==> (forall|i: int|
            0 <= i < tokens@.len() ==> #[trigger] blobs@[i]@ == spec_decode(flavor, tokens@[i]@)),
        r is Err ==> r == Err::<Vec<Vec<u8>>, DecodingError>(decode_error_of(flavor)),
{
    match flavor {
        Flavor::Base64 => b64::decode_sequence(tokens),
        Flavor::Identifier => id::decode_sequence(tokens),
    }
}

/// Streaming adapter for decoding a sequence whose length is known only by
/// exhaustion: the consumer pulls tokens from its source one at a time and
/// pushes each here as it arrives. Arrival order is preserved; the first
/// rejected token reports an error and leaves the accumulator unchanged,
/// so an aborting consumer exposes no partial result.
pub struct SequenceDecoder {
    flavor: Flavor,
    items: Vec<Vec<u8>>,
}

impl SequenceDecoder {
    /// The flavor the adapter decodes with.
    pub closed spec fn spec_flavor(&self) -> Flavor {
        self.flavor
    }

    /// The blobs decoded so far, in arrival order.
    pub closed spec fn decoded(&self) -> Seq<Seq<u8>> {
        self.items.deep_view()
    }

    /// Creates an adapter. A size hint from the source only pre-sizes the
    /// accumulator; it never bounds how many tokens may be pushed.
    pub fn new(flavor: Flavor, size_hint: Option<usize>) -> (d: Self)
        ensures
            d.spec_flavor() == flavor,
            d.decoded() == Seq::<Seq<u8>>::empty(),
    {
        let cap: usize = match size_hint {
            Some(n) => n,
            None => 0,
        };
        let d = SequenceDecoder { flavor, items: Vec::with_capacity(cap) };
        proof {
            assert(d.decoded() =~= Seq::<Seq<u8>>::empty());
        }
        d
    }

    /// Decodes one arriving token and appends its blob, or reports the
    /// flavor's error and changes nothing.
    pub fn push_token(&mut self, token: &str) -> (r: Result<(), DecodingError>)
        ensures
            final(self).spec_flavor() == old(self).spec_flavor(),
            r is Ok <==> spec_token_valid(old(self).spec_flavor(), token@),
            r is Ok ==> final(self).decoded() == old(self).decoded().push(
                spec_decode(old(self).spec_flavor(), token@),
            ),
            r is Err ==> final(self).decoded() == old(self).decoded(),
            r is Err ==> r == Err::<(), DecodingError>(decode_error_of(old(self).spec_flavor())),
    {
        match decode_scalar(self.flavor, token) {
            Ok(blob) => {
                let ghost previous = self.items.deep_view();
                let ghost decoded_one = blob@;
                self.items.push(blob);
                proof {
                    assert(self.items.deep_view() =~~= previous.push(decoded_one));
                }
                Ok(())
            },
            Err(e) => Err(e),
        }
    }

    /// Hands the accumulated blobs out once the source reports exhaustion.
    pub fn finish(self) -> (blobs: Vec<Vec<u8>>)
        ensures
            blobs.deep_view() == self.decoded(),
    {
        self.items
    }
}

} // verus!
