//! The encoding resolver: maps a user-supplied encoding label to a decode
//! capability, rejecting unknown labels at configuration time. Decoding
//! itself never fails: malformed byte sequences come out as replacement
//! characters.

use vstd::prelude::*;

verus! {

/// Whether encoding_rs recognizes `label` as the name or an alias of a
/// supported encoding (ASCII-case-insensitively, ignoring surrounding
/// whitespace).
pub uninterp spec fn label_known(label: Seq<char>) -> bool;

/// The UTF-8 bytes of the text that the encoding named by `label` decodes
/// `bytes` to, under encoding_rs's replacement behavior on malformed input.
/// Meaningful only when `label_known(label)` holds.
pub uninterp spec fn decoded_utf8(label: Seq<char>, bytes: Seq<u8>) -> Seq<u8>;

/// Relies on encoding_rs::Encoding::for_label: it returns Some exactly when
/// the label names a supported encoding, and the answer depends on the label
/// alone.
#[verifier::external_body]
fn for_label_known(label: &str) -> (r: bool)
    ensures
        r == label_known(label@),
{
    encoding_rs::Encoding::for_label(label.as_bytes()).is_some()
}

/// Relies on encoding_rs::Encoding::for_label and Encoding::decode: for_label
/// answers Some exactly for a recognized label, always resolving the same
/// label to the same encoding, and decode then maps the bytes to Unicode
/// text, replacing malformed sequences with U+FFFD and never failing, so the
/// text is a function of the label and the bytes alone. The length bound
/// keeps decode's output buffer size computation from overflowing.
#[verifier::external_body]
fn decode_via_label(label: &str, bytes: &[u8]) -> (r: Option<Vec<u8>>)
    requires
        bytes@.len() <= usize::MAX / 4,
    ensures
        r is Some <==> label_known(label@),
        r matches Some(v) ==> v@ == decoded_utf8(label@, bytes@),
{
    match encoding_rs::Encoding::for_label(label.as_bytes()) {
        Option::Some(encoding) => {
            let (text, _, _) = encoding.decode(bytes);
            Option::Some(text.into_owned().into_bytes())
        },
        Option::None => Option::None,
    }
}

/// The one configuration error the resolver can report.
#[derive(Clone, Copy, Debug)]
pub enum EncodingError {
    UnsupportedEncoding,
}

/// The decode capability of one resolved encoding: a label that the resolver
/// has validated. All decoding for a session goes through one value of this
/// type.
pub struct Decoder {
    label: String,
}

/// What being well-formed means for a decoder: it exists exactly for a
/// recognized label.
pub proof fn lemma_decoder_label_known(d: Decoder)
    ensures
        d.wf() <==> label_known(d.label()),
{
}

impl Decoder {
    /// The label the decoder was resolved from.
    pub closed spec fn label(self) -> Seq<char> {
        self.label@
    }

    /// A decoder is only ever built from a recognized label.
    pub closed spec fn wf(self) -> bool {
        label_known(self.label@)
    }

    /// Resolves a user-supplied encoding label: Ok exactly when the label
    /// names a supported encoding, and the error otherwise. An unrecognized
    /// label is a configuration error that must stop startup.
    pub fn resolve(label: &str) -> (r: Result<Decoder, EncodingError>)
        ensures
            r is Ok <==> label_known(label@),
            r matches Ok(d) ==> d.wf() && d.label() == label@,
            r matches Err(e) ==> e is UnsupportedEncoding,
    {
        if for_label_known(label) {
            Result::Ok(Decoder { label: label.to_owned() })
        } else {
            Result::Err(EncodingError::UnsupportedEncoding)
        }
    }

    /// Decodes one span of input bytes to the UTF-8 bytes of its text. The
    /// length bound is a machine limit of the decoder's buffer arithmetic.
    pub fn decode(&self, bytes: &[u8]) -> (r: Vec<u8>)
        requires
            self.wf(),
            bytes@.len() <= usize::MAX / 4,
        ensures
            r@ == decoded_utf8(self.label(), bytes@),
    {
        match decode_via_label(self.label.as_str(), bytes) {
            Option::Some(v) => v,
            Option::None => vstd::pervasive::unreached(),
        }
    }
}

} // verus!
