//! Content-type guessing backed by the `mime_guess` crate's extension table,
//! falling back to plain text for an extension the table does not know.

use vstd::prelude::*;

verus! {

/// What `mime_guess` answers for an extension: the essence string of its
/// first guess, or nothing when the extension is unknown to its table. The
/// answer is a function of the extension alone.
pub uninterp spec fn mime_essence(ext: Seq<char>) -> Option<Seq<char>>;

/// Relies on `mime_guess::from_ext` and `MimeGuess::first`: the first guessed
/// MIME type for a file extension, determined by the extension alone, `None`
/// when the crate's table has no entry for it. `Mime::essence_str` renders
/// the guess without parameters.
#[verifier::external_body]
fn mime_first_guess(extension: &str) -> (r: Option<String>)
    ensures
        match r {
            Some(s) => mime_essence(extension@) == Some(s@),
            None => mime_essence(extension@) is None,
        },
{
    mime_guess::from_ext(extension).first().map(|g| String::from(g.essence_str()))
}

/// The content type this module reports for an extension: what `mime_guess`
/// answers, or "text/plain" when it answers nothing.
pub open spec fn spec_guessed_mime(ext: Seq<char>) -> Seq<char> {
    match mime_essence(ext) {
        Some(s) => s,
        None => "text/plain"@,
    }
}

/// Guesses the MIME type of a file from its extension, with "text/plain"
/// for an extension the table does not know.
pub fn guess_mime_type(extension: &str) -> (r: String)
    ensures
        r@ == spec_guessed_mime(extension@),
{
    let guess = mime_first_guess(extension);
    if let Some(g) = guess {
        g
    } else {
        "text/plain".to_owned()
    }
}

} // verus!
