//! The built-in content-type table: a fixed, case-insensitive mapping from a
//! file extension to a MIME type string, with a plain-text default.

use vstd::prelude::*;
use crate::strutil::{lowercase, spec_lower, str_eq};

verus! {

/// The content type the table assigns to an extension: the lowercased
/// extension decides, and anything unknown maps to "text/plain".
pub open spec fn spec_mime_for(ext: Seq<char>) -> Seq<char> {
    let l = spec_lower(ext);
    if l == "html"@ {
        "text/html"@
    } else if l == "css"@ {
        "text/css"@
    } else if l == "js"@ {
        "text/javascript"@
    } else if l == "png"@ {
        "image/png"@
    } else if l == "jpg"@ || l == "jpeg"@ {
        "image/jpeg"@
    } else if l == "gif"@ {
        "image/gif"@
    } else if l == "ico"@ {
        "image/x-icon"@
    } else {
        "text/plain"@
    }
}

/// Guesses the MIME type of a file from its extension, case-insensitively,
/// using the built-in table.
pub fn guess_mime_type(extension: &str) -> (r: String)
    ensures
        r@ == spec_mime_for(extension@),
{
    let l = lowercase(extension);
    if str_eq(l.as_str(), "html") {
        "text/html".to_owned()
    } else if str_eq(l.as_str(), "css") {
        "text/css".to_owned()
    } else if str_eq(l.as_str(), "js") {
        "text/javascript".to_owned()
    } else if str_eq(l.as_str(), "png") {
        "image/png".to_owned()
    } else if str_eq(l.as_str(), "jpg") || str_eq(l.as_str(), "jpeg") {
        "image/jpeg".to_owned()
    } else if str_eq(l.as_str(), "gif") {
        "image/gif".to_owned()
    } else if str_eq(l.as_str(), "ico") {
        "image/x-icon".to_owned()
    } else {
        "text/plain".to_owned()
    }
}

} // verus!
