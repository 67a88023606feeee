//! The static-file fallback: resolving a static request to a file under the
//! configured root and writing the outcome into the response. Reading the
//! disk is an outside collaborator behind the `FileReader` capability; every
//! decision around it is verified.

use vstd::prelude::*;
use vstd::string::*;
use crate::classify::{after_last, spec_after_last, spec_extension};
use crate::guess_utils::{guess_mime_type, spec_guessed_mime};
use crate::request::{ReqView, Request};
use crate::response::{RespView, Response};
use crate::route::Handler;
use crate::strutil::str_eq;

verus! {

/// Specification-level text: what a path or a file's contents read as,
/// character by character. Outside implementers of `FileReader` can name
/// their models' types through this alias.
pub type SpecText = Seq<char>;

/// Specification-level directory listing: the file names, in order.
pub type SpecNames = Seq<Seq<char>>;

/// The filesystem collaborator: reads a file's text and lists a directory's
/// file names. Implemented outside this crate. `read_model` and
/// `list_model` are the reader's own statement of what it answers for each
/// path, and the two methods must answer exactly that — which answers those
/// are, the library does not assume.
pub trait FileReader: Sized {
    spec fn read_model(self, path: SpecText) -> Option<SpecText>;

    spec fn list_model(self, path: SpecText) -> Option<SpecNames>;

    /// The file's contents, or nothing when it is missing or unreadable.
    fn read_file(&self, path: &str) -> (r: Option<String>)
        ensures
            match r {
                Some(c) => self.read_model(path@) == Some(c@),
                None => self.read_model(path@) is None,
            },
    ;

    /// The names of the files in a directory, or nothing when it cannot be
    /// listed.
    fn list_dir(&self, path: &str) -> (r: Option<Vec<String>>)
        ensures
            match r {
                Some(names) => self.list_model(path@) == Some(names.deep_view()),
                None => self.list_model(path@) is None,
            },
    ;
}

/// What `encoding_rs` decodes a byte sequence to: a function of the bytes
/// alone.
pub uninterp spec fn utf8_lossy_decode(bytes: Seq<u8>) -> Seq<char>;

/// Relies on `encoding_rs`'s `UTF_8.decode_with_bom_removal`: decodes the
/// bytes as UTF-8, dropping a leading byte-order mark and replacing invalid
/// sequences, deterministically from the bytes alone.
#[verifier::external_body]
fn decode_utf8(bytes: &Vec<u8>) -> (r: String)
    ensures
        r@ == utf8_lossy_decode(bytes@),
{
    let (text, _) = encoding_rs::UTF_8.decode_with_bom_removal(bytes);
    text.into_owned()
}

/// The label the serving table files a path under: its last dot-segment,
/// mapped onto the names the table knows, with "plain" for the rest.
pub open spec fn spec_extension_label(path: Seq<char>) -> Seq<char> {
    let e = spec_after_last(path, '.');
    if e == "html"@ {
        "html"@
    } else if e == "css"@ {
        "css"@
    } else if e == "js"@ {
        "javascript"@
    } else {
        "plain"@
    }
}

/// The contents of a file, decoded as UTF-8 with any byte-order mark
/// removed, paired with the label its path's extension falls under. The
/// caller supplies the raw bytes it read for the path.
pub fn read_file_with_extension(path: &str, raw: Vec<u8>) -> (r: (String, String))
    ensures
        r.0@ == utf8_lossy_decode(raw@),
        r.1@ == spec_extension_label(path@),
{
    let e = after_last(path, '.');
    let label: &str = if str_eq(e.as_str(), "html") {
        "html"
    } else if str_eq(e.as_str(), "css") {
        "css"
    } else if str_eq(e.as_str(), "js") {
        "javascript"
    } else {
        "plain"
    };
    let contents = decode_utf8(&raw);
    (contents, label.to_owned())
}

/// The first name in the listing whose extension is "html", paired with
/// that extension.
pub open spec fn spec_first_html(names: Seq<Seq<char>>) -> Option<Seq<char>>
    decreases names.len(),
{
    if names.len() == 0 {
        None
    } else if spec_extension(names[0]) == Some("html"@) {
        Some(names[0])
    } else {
        spec_first_html(names.drop_first())
    }
}

/// The first file of a directory listing whose extension is "html", with
/// its extension, if the listing has one.
pub fn get_first_html_file_name(names: &Vec<String>) -> (r: Option<(String, String)>)
    ensures
        match r {
            Some(p) => spec_first_html(names.deep_view()) == Some(p.0@) && p.1@ == "html"@,
            None => spec_first_html(names.deep_view()) is None,
        },
{
    let ghost dv = names.deep_view();
    let n = names.len();
    let mut i: usize = 0;
    proof {
        assert(dv.skip(0) =~= dv);
    }
    while i < n
        invariant
            i <= n,
            n == dv.len(),
            dv == names.deep_view(),
            spec_first_html(dv.skip(i as int)) == spec_first_html(dv),
        decreases n - i,
    {
        proof {
            assert(dv[i as int] == names@[i as int]@);
            assert(dv.skip(i as int)[0] == dv[i as int]);
            assert(dv.skip(i as int).drop_first() =~= dv.skip(i as int + 1));
        }
        let name: &String = &names[i];
        let is_html: bool = match crate::classify::extension_of(name.as_str()) {
            Some(e) => str_eq(e.as_str(), "html"),
            None => false,
        };
        if is_html {
            return Some((name.clone(), "html".to_owned()));
        }
        i = i + 1;
    }
    proof {
        assert(dv.skip(n as int) =~= Seq::<Seq<char>>::empty());
    }
    None
}

/// The not-found outcome: the status becomes 404 "Not Found" and everything
/// else stands.
pub open spec fn spec_not_found(r: RespView) -> RespView {
    RespView { status_code: 404, status_message: "Not Found"@, ..r }
}

/// What a read outcome does to the response: contents found become the body,
/// under the content type guessed from the extension; a failed read sets the
/// not-found status and leaves the body empty.
pub open spec fn spec_apply_read(ext: Seq<char>, read: Option<Seq<char>>, r: RespView) -> RespView {
    match read {
        Some(c) => RespView { content_type: Some(spec_guessed_mime(ext)), content: Some(c), ..r },
        None => spec_not_found(r),
    }
}

/// Writes a read outcome into the response, as `spec_apply_read` lays down.
pub fn apply_read_result(extension: &str, read: Option<String>, response: &mut Response)
    ensures
        final(response)@ == spec_apply_read(
            extension@,
            match read {
                Some(c) => Some(c@),
                None => None,
            },
            old(response)@,
        ),
{
    match read {
        Some(c) => {
            let ct = guess_mime_type(extension);
            response.set_contents(ct.as_str(), c.as_str());
            proof {
                assert(response@ =~= spec_apply_read(extension@, Some(c@), old(response)@));
            }
        },
        None => {
            response.set_status(404, "Not Found");
            proof {
                assert(response@ =~= spec_apply_read(extension@, None, old(response)@));
            }
        },
    }
}

/// The disk path a static resource resolves to: the root, a separator, and
/// the resource's name.
pub open spec fn spec_static_target(root: Seq<char>, sub: Seq<char>) -> Seq<char> {
    root + "/"@ + sub
}

/// What serving a static request does to a response, given the reader's
/// model. A request without static metadata changes nothing. One carrying a
/// sub-resource path reads it joined under the root, with the extension
/// taken as its last dot-segment. One without a sub-resource (the bare "/"
/// case) reads the first file of the root's listing whose extension is
/// html; a listing that cannot be had or has no such file ends in the
/// not-found status. Every read outcome lands as `spec_apply_read` lays
/// down.
pub open spec fn spec_serve<R: FileReader>(
    reader: R,
    root: Seq<char>,
    req: ReqView,
    resp: RespView,
) -> RespView {
    match req.static_request_data {
        None => resp,
        Some(Some(sub)) => spec_apply_read(
            spec_after_last(sub, '.'),
            reader.read_model(spec_static_target(root, sub)),
            resp,
        ),
        Some(None) => match reader.list_model(root) {
            Some(listing) => match spec_first_html(listing) {
                Some(name) => spec_apply_read(
                    "html"@,
                    reader.read_model(spec_static_target(root, name)),
                    resp,
                ),
                None => spec_not_found(resp),
            },
            None => spec_not_found(resp),
        },
    }
}

/// Serves one static request, exactly as `spec_serve` lays down over the
/// reader's model.
pub fn serve_static_request<R: FileReader>(
    reader: &R,
    root: &str,
    request: &Request,
    response: &mut Response,
)
    ensures
        final(response)@ == spec_serve(*reader, root@, request@, old(response)@),
{
    match &request.static_request_data {
        None => {},
        Some(data) => {
            match &data.path {
                Some(sub) => {
                    let mut target = root.to_owned();
                    target.append("/");
                    target.append(sub.as_str());
                    proof {
                        assert(target@ == spec_static_target(root@, sub@));
                    }
                    let ext = after_last(sub.as_str(), '.');
                    let file = reader.read_file(target.as_str());
                    apply_read_result(ext.as_str(), file, response);
                    proof {
                        assert(response@ == spec_serve(*reader, root@, request@, old(response)@));
                    }
                },
                None => {
                    let mut served = false;
                    match reader.list_dir(root) {
                        Some(names) => {
                            match get_first_html_file_name(&names) {
                                Some(p) => {
                                    let mut target = root.to_owned();
                                    target.append("/");
                                    target.append(p.0.as_str());
                                    proof {
                                        assert(target@ == spec_static_target(root@, p.0@));
                                    }
                                    let file = reader.read_file(target.as_str());
                                    apply_read_result(p.1.as_str(), file, response);
                                    proof {
                                        assert(response@ == spec_serve(
                                            *reader,
                                            root@,
                                            request@,
                                            old(response)@,
                                        ));
                                    }
                                    served = true;
                                },
                                None => {},
                            }
                        },
                        None => {},
                    }
                    if !served {
                        response.set_status(404, "Not Found");
                        proof {
                            assert(response@ =~= spec_not_found(old(response)@));
                            assert(response@ == spec_serve(
                                *reader,
                                root@,
                                request@,
                                old(response)@,
                            ));
                        }
                    }
                },
            }
        },
    }
}

/// The generated handler standing at the reserved static route: it serves
/// files under its root through its reader, and its model is exactly what
/// serving does given the reader's model.
pub struct StaticAdapter<R: FileReader> {
    pub root: String,
    pub reader: R,
}

impl<R: FileReader> Handler for StaticAdapter<R> {
    open spec fn model(self, req: ReqView, resp: RespView) -> RespView {
        spec_serve(self.reader, self.root@, req, resp)
    }

    fn handle(&self, request: &Request, response: &mut Response) {
        serve_static_request(&self.reader, self.root.as_str(), request, response);
    }
}

} // verus!
