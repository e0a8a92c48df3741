//! Byte-level encodings: the percent-encoding of a page's `Referer` header and
//! the decoding of fetched bytes in a site's declared character encoding.
use vstd::prelude::*;
use vstd::string::StringSliceAdditionalSpecFns;
use vstd::utf8::{decode_utf8, valid_utf8};
use base64::Engine;
use crate::error::Error;

verus! {

/// The upper-case hexadecimal digit for `d < 16`.
pub open spec fn hex_upper(d: u8) -> char {
    if d < 10 {
        ((d + 48) as u8) as char
    } else {
        ((d + 55) as u8) as char
    }
}

/// A byte in the `CONTROLS` set of the `percent_encoding` crate, or a byte
/// outside ASCII: both are written as `%XX`.
pub open spec fn encoded_in_controls(b: u8) -> bool {
    b < 0x20 || b >= 0x7f
}

/// The text that one byte becomes.
pub open spec fn encode_controls_byte(b: u8) -> Seq<char> {
    if encoded_in_controls(b) {
        seq!['%', hex_upper(b / 16), hex_upper(b % 16)]
    } else {
        seq![b as char]
    }
}

/// The percent-encoding of `bytes` with the `CONTROLS` set: each control
/// byte and each non-ASCII byte becomes `%` and two upper-case hexadecimal
/// digits; every other byte stands for itself.
pub open spec fn percent_encoded_controls(bytes: Seq<u8>) -> Seq<char>
    decreases bytes.len(),
{
    if bytes.len() == 0 {
        Seq::empty()
    } else {
        encode_controls_byte(bytes[0]) + percent_encoded_controls(bytes.drop_first())
    }
}

/// Percent-encodes the UTF-8 bytes of `input` with the `CONTROLS` set
/// (`percent_encoding::utf8_percent_encode(input, CONTROLS)`, collected into
/// a `String`). The contract restates the crate's documented rule: a byte is
/// written as `%XX` when it is not ASCII or lies in 0x00..=0x1F or is 0x7F.
#[verifier::external_body]
pub(crate) fn utf8_percent_encode_controls(input: &str) -> (r: String)
    ensures
        r@ == percent_encoded_controls(input.spec_bytes()),
{
    percent_encoding::utf8_percent_encode(input, percent_encoding::CONTROLS).collect()
}

/// Printable ASCII: the characters that percent-encoding with `CONTROLS`
/// leaves unchanged.
pub open spec fn is_printable_ascii(s: Seq<char>) -> bool {
    forall|i: int| 0 <= i < s.len() ==> ' ' <= #[trigger] s[i] && s[i] <= '~'
}

/// The bytes of printable ASCII text pass percent-encoding with `CONTROLS`
/// unchanged.
pub proof fn lemma_encode_printable_bytes(s: Seq<char>)
    requires
        is_printable_ascii(s),
    ensures
        percent_encoded_controls(Seq::new(s.len(), |i| s[i] as u8)) == s,
    decreases s.len(),
{
    let b = Seq::new(s.len(), |i| s[i] as u8);
    if s.len() > 0 {
        let t = s.drop_first();
        lemma_encode_printable_bytes(t);
        assert(b.drop_first() =~= Seq::new(t.len(), |i| t[i] as u8));
        assert((s[0] as u8) as char == s[0]);
        assert(seq![s[0]] + t =~= s);
    } else {
        assert(s =~= Seq::<char>::empty());
    }
}

/// Whether `encoding_rs::Encoding::for_label` knows the label `label`.
pub uninterp spec fn encoding_label_known(label: Seq<char>) -> bool;

/// The text that `bytes` decode to in the encoding labelled `label`, by
/// `Encoding::decode`: a byte order mark, when present, selects the
/// encoding instead, and malformed sequences become U+FFFD.
pub uninterp spec fn decoded_text(label: Seq<char>, bytes: Seq<u8>) -> Seq<char>;

/// Looks up the encoding labelled `label` (`Encoding::for_label`) and decodes
/// `bytes` with it (`Encoding::decode`); `None` for an unknown label.
#[verifier::external_body]
fn decode_with_label(label: &str, bytes: &[u8]) -> (r: Option<String>)
    ensures
        r is Some <==> encoding_label_known(label@),
        r matches Some(s) ==> s@ == decoded_text(label@, bytes@),
{
    match encoding_rs::Encoding::for_label(label.as_bytes()) {
        Some(encoding) => Some(encoding.decode(bytes).0.into_owned()),
        None => None,
    }
}

/// The message for an encoding label that is not known.
pub open spec fn unknown_encoding_message(label: Seq<char>) -> Seq<char> {
    "Unknown text encoding: "@ + label
}

/// The text of a fetched body that the source serves in the encoding
/// labelled `encoding` (such as `GBK` or `Big5`).
pub fn decode_text(bytes: &[u8], encoding: &str) -> (r: Result<String, Error>)
    ensures
        match r {
            Ok(s) => encoding_label_known(encoding@) && s@ == decoded_text(encoding@, bytes@),
            Err(e) => !encoding_label_known(encoding@) && e.message@ == unknown_encoding_message(
                encoding@,
            ),
        },
{
    match decode_with_label(encoding, bytes) {
        Some(s) => Ok(s),
        None => Err(Error::with_detail("Unknown text encoding: ", encoding)),
    }
}

/// The bytes that `input` decodes to with the standard base64 alphabet and
/// padding (the `STANDARD` engine of the `base64` crate), or `None` when
/// `input` is not valid base64 for it.
pub uninterp spec fn base64_decoded(input: Seq<u8>) -> Option<Seq<u8>>;

/// The message of the `base64::DecodeError` for an input that does not
/// decode.
pub uninterp spec fn base64_error_text(input: Seq<u8>) -> Seq<char>;

/// Decodes `input` as standard base64 (`Engine::decode` of
/// `base64::engine::general_purpose::STANDARD`, what `base64::decode`
/// does); on failure, the error's message.
#[verifier::external_body]
fn base64_decode(input: &str) -> (r: Result<Vec<u8>, String>)
    ensures
        match base64_decoded(input.spec_bytes()) {
            Some(b) => r matches Ok(v) && v@ == b,
            None => r matches Err(m) && m@ == base64_error_text(input.spec_bytes()),
        },
{
    match base64::engine::general_purpose::STANDARD.decode(input) {
        Ok(bytes) => Ok(bytes),
        Err(e) => Err(e.to_string()),
    }
}

/// The message of the `std::str::Utf8Error` for bytes that are not UTF-8.
pub uninterp spec fn utf8_error_text(bytes: Seq<u8>) -> Seq<char>;

/// The text that `bytes` encode in UTF-8 (`std::str::from_utf8`), which
/// succeeds exactly when the bytes are valid UTF-8; on failure, the error's
/// message.
#[verifier::external_body]
fn utf8_text(bytes: &[u8]) -> (r: Result<String, String>)
    ensures
        r is Ok <==> valid_utf8(bytes@),
        r matches Ok(s) ==> s@ == decode_utf8(bytes@),
        r matches Err(m) ==> m@ == utf8_error_text(bytes@),
{
    match std::str::from_utf8(bytes) {
        Ok(text) => Ok(text.to_string()),
        Err(e) => Err(e.to_string()),
    }
}

/// The text that base64 data `data` carries: the data decoded, then read
/// as UTF-8.
pub open spec fn base64_text(data: Seq<u8>) -> Result<Seq<char>, Seq<char>> {
    match base64_decoded(data) {
        None => Err(base64_error_text(data)),
        Some(b) => if valid_utf8(b) {
            Ok(decode_utf8(b))
        } else {
            Err(utf8_error_text(b))
        },
    }
}

/// The UTF-8 text carried by the base64 data `data`.
pub fn decode_base64_text(data: &str) -> (r: Result<String, Error>)
    ensures
        match base64_text(data.spec_bytes()) {
            Ok(t) => r matches Ok(s) && s@ == t,
            Err(m) => r matches Err(e) && e.message@ == m,
        },
{
    let bytes = match base64_decode(data) {
        Ok(b) => b,
        Err(m) => {
            return Err(Error { message: m });
        },
    };
    match utf8_text(bytes.as_slice()) {
        Ok(text) => Ok(text),
        Err(m) => Err(Error { message: m }),
    }
}

} // verus!
