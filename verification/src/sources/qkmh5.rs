//! www.qkmh5.com: the page addresses of a chapter, which the page carries
//! base64-encoded and joined by a marker.
use vstd::prelude::*;
use vstd::string::StringSliceAdditionalSpecFns;
use crate::encoding::{base64_text, decode_base64_text};
use crate::error::Error;
use crate::text::{split, split_pieces};

verus! {

/// The marker between two page addresses.
pub open spec fn address_marker() -> Seq<char> {
    "$qingtiandy$"@
}

/// The page addresses that the encoded text `encoded` carries, or why it
/// cannot be read.
pub open spec fn addresses_spec(encoded: Seq<u8>) -> Result<Seq<Seq<char>>, Seq<char>> {
    match base64_text(encoded) {
        Ok(t) => Ok(split_pieces(t, address_marker())),
        Err(m) => Err(m),
    }
}

/// The page addresses carried by `encoded`: base64 text whose pieces
/// between markers are the addresses.
pub fn image_addresses(encoded: &str) -> (r: Result<Vec<String>, Error>)
    ensures
        match addresses_spec(encoded.spec_bytes()) {
            Ok(a) => r matches Ok(v) && v@.map_values(|x: String| x@) == a,
            Err(m) => r matches Err(e) && e.message@ == m,
        },
{
    let text = decode_base64_text(encoded)?;
    let marker = "$qingtiandy$";
    proof {
        reveal_strlit("$qingtiandy$");
    }
    Ok(split(text.as_str(), marker))
}

} // verus!
