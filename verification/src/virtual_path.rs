//! `qmd://` paths.
use vstd::prelude::*;

use crate::text::hex;
use crate::text::hex::{percent_encode, UriPart};

verus! {

/// The `qmd://` path of a file in a collection, with the name of the index where one is given.
pub open spec fn virtual_path(
    collection: Seq<char>,
    path: Seq<char>,
    index: Option<&str>,
) -> Seq<char> {
    let base = "qmd://"@ + collection + "/"@ + path;
    match index {
        Some(name) => base + "?index="@ + hex::percent_encoded(vstd::utf8::encode_utf8(name@), UriPart::Value),
        None => base,
    }
}

/// The `qmd://` path of a file in a collection, with the name of the index where one is given.
pub fn build_virtual_path(collection: &str, path: &str, index_name: Option<&str>) -> (s: String)
    ensures
        s@ == virtual_path(collection@, path@, index_name),
{
    let mut s: String = "qmd://".to_owned();
    s.append(collection);
    s.append("/");
    s.append(path);
    match index_name {
        Some(name) => {
            s.append("?index=");
            s.append(percent_encode(name, UriPart::Value).as_str());
        },
        None => {},
    }
    s
}

} // verus!
