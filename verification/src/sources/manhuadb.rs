//! www.manhuadb.com: the script that lists a chapter's images, which the
//! page carries base64-encoded.
use vstd::prelude::*;
use vstd::string::StringSliceAdditionalSpecFns;
use crate::encoding::{base64_text, decode_base64_text};
use crate::error::Error;
use crate::text::push_str;

verus! {

/// The script that evaluates the image list `list` to the images' file
/// names.
pub open spec fn image_script(list: Seq<char>) -> Seq<char> {
    "\n            var imgs = eval('"@ + list + "').map(item => item.img);\n            imgs\n        "@
}

/// The script for the image data `img_data`, or why the data cannot be
/// read.
pub open spec fn image_script_spec(img_data: Seq<u8>) -> Result<Seq<char>, Seq<char>> {
    match base64_text(img_data) {
        Ok(t) => Ok(image_script(t)),
        Err(m) => Err(m),
    }
}

/// The script that lists the image file names of the base64 image data
/// `img_data`.
pub fn image_list_script(img_data: &str) -> (r: Result<String, Error>)
    ensures
        match image_script_spec(img_data.spec_bytes()) {
            Ok(s) => r matches Ok(t) && t@ == s,
            Err(m) => r matches Err(e) && e.message@ == m,
        },
{
    let list = decode_base64_text(img_data)?;
    let mut script = String::from_str("\n            var imgs = eval('");
    push_str(&mut script, list.as_str());
    push_str(&mut script, "').map(item => item.img);\n            imgs\n        ");
    Ok(script)
}

/// The address of image `img_file` under the path `path_prefix`.
pub open spec fn image_url(path_prefix: Seq<char>, img_file: Seq<char>) -> Seq<char> {
    "https://www.manhuadb.com"@ + path_prefix + img_file
}

/// The address of image `img_file` under the path `path_prefix`.
pub fn image_address(path_prefix: &str, img_file: &str) -> (r: String)
    ensures
        r@ == image_url(path_prefix@, img_file@),
{
    let mut r = String::from_str("https://www.manhuadb.com");
    push_str(&mut r, path_prefix);
    push_str(&mut r, img_file);
    r
}

} // verus!
