//! The response model: a mutable response builder, created with a default
//! success status, and its serialization into HTTP/1.1 text framing.

use vstd::prelude::*;
use vstd::string::*;
use crate::guess_utils::{guess_mime_type, spec_guessed_mime};
use crate::strutil::{push_decimal, spec_dec};

verus! {

/// A response under construction: status, optional content type, optional
/// body.
pub struct Response {
    pub status_code: usize,
    pub status_message: String,
    pub content_type: Option<String>,
    pub content: Option<String>,
}

/// The mathematical content of a response.
#[verifier::ext_equal]
pub struct RespView {
    pub status_code: int,
    pub status_message: Seq<char>,
    pub content_type: Option<Seq<char>>,
    pub content: Option<Seq<char>>,
}

impl View for Response {
    type V = RespView;

    open spec fn view(&self) -> RespView {
        RespView {
            status_code: self.status_code as int,
            status_message: self.status_message@,
            content_type: match self.content_type {
                Some(t) => Some(t@),
                None => None,
            },
            content: match self.content {
                Some(c) => Some(c@),
                None => None,
            },
        }
    }
}

/// The state every response starts in: status 200 "OK", no content type, no
/// body.
pub open spec fn spec_default_resp() -> RespView {
    RespView { status_code: 200, status_message: "OK"@, content_type: None, content: None }
}

/// The content type a response is sent with when it has a body: the one that
/// was set, or a guess from the body itself when none was.
pub open spec fn spec_effective_type(r: RespView) -> Seq<char> {
    match r.content_type {
        Some(t) => t,
        None => spec_guessed_mime(match r.content {
            Some(c) => c,
            None => Seq::empty(),
        }),
    }
}

/// The serialized form of a response. With a body: the status line, then
/// `Content-Type` and `Content-Length` headers, a blank line, and the body,
/// where the length counts the body's UTF-8 bytes. Without a body: the
/// status line and a blank line, with no headers.
pub open spec fn spec_render(r: RespView) -> Seq<char> {
    match r.content {
        Some(body) => "HTTP/1.1 "@ + spec_dec(r.status_code as nat) + " "@ + r.status_message
            + "\r\nContent-Type: "@ + spec_effective_type(r) + "\r\nContent-Length: "@ + spec_dec(
            (vstd::utf8::encode_utf8(body).len() as usize) as nat,
        ) + "\r\n\r\n"@ + body,
        None => "HTTP/1.1 "@ + spec_dec(r.status_code as nat) + " "@ + r.status_message
            + "\r\n\r\n"@,
    }
}

impl Response {
    /// A fresh response: success status, no content.
    pub fn new() -> (r: Response)
        ensures
            r@ == spec_default_resp(),
    {
        let r = Response {
            status_code: 200,
            status_message: "OK".to_owned(),
            content_type: None,
            content: None,
        };
        proof {
            assert(r@ =~= spec_default_resp());
        }
        r
    }

    /// Sets the status code and message together.
    pub fn set_status(&mut self, status_code: usize, status_message: &str)
        ensures
            final(self)@ == (RespView {
                status_code: status_code as int,
                status_message: status_message@,
                ..old(self)@
            }),
    {
        self.status_code = status_code;
        self.status_message = status_message.to_owned();
        proof {
            assert(self@ =~= (RespView {
                status_code: status_code as int,
                status_message: status_message@,
                ..old(self)@
            }));
        }
    }

    /// Sets the status code alone.
    pub fn set_status_code(&mut self, status_code: usize)
        ensures
            final(self)@ == (RespView { status_code: status_code as int, ..old(self)@ }),
    {
        self.status_code = status_code;
        proof {
            assert(self@ =~= (RespView { status_code: status_code as int, ..old(self)@ }));
        }
    }

    /// Sets the status message alone.
    pub fn set_status_message(&mut self, status_message: &str)
        ensures
            final(self)@ == (RespView { status_message: status_message@, ..old(self)@ }),
    {
        self.status_message = status_message.to_owned();
        proof {
            assert(self@ =~= (RespView { status_message: status_message@, ..old(self)@ }));
        }
    }

    /// Sets the content type and the body together.
    pub fn set_contents(&mut self, content_type: &str, content: &str)
        ensures
            final(self)@ == (RespView {
                content_type: Some(content_type@),
                content: Some(content@),
                ..old(self)@
            }),
    {
        self.content_type = Some(content_type.to_owned());
        self.content = Some(content.to_owned());
        proof {
            assert(self@ =~= (RespView {
                content_type: Some(content_type@),
                content: Some(content@),
                ..old(self)@
            }));
        }
    }

    /// Sets the content type alone.
    pub fn set_content_type(&mut self, content_type: &str)
        ensures
            final(self)@ == (RespView { content_type: Some(content_type@), ..old(self)@ }),
    {
        self.content_type = Some(content_type.to_owned());
        proof {
            assert(self@ =~= (RespView { content_type: Some(content_type@), ..old(self)@ }));
        }
    }

    /// Sets the body alone.
    pub fn set_content(&mut self, content: &str)
        ensures
            final(self)@ == (RespView { content: Some(content@), ..old(self)@ }),
    {
        self.content = Some(content.to_owned());
        proof {
            assert(self@ =~= (RespView { content: Some(content@), ..old(self)@ }));
        }
    }

    /// Serializes this response into the text that goes on the wire, as
    /// `spec_render` lays down.
    pub fn render(&self) -> (out: String)
        ensures
            out@ == spec_render(self@),
    {
        let mut out = String::new();
        out.append("HTTP/1.1 ");
        push_decimal(self.status_code as u64, &mut out);
        out.append(" ");
        out.append(self.status_message.as_str());
        match &self.content {
            Some(body) => {
                out.append("\r\nContent-Type: ");
                let ct: String = match &self.content_type {
                    Some(t) => t.clone(),
                    None => guess_mime_type(body.as_str()),
                };
                out.append(ct.as_str());
                out.append("\r\nContent-Length: ");
                let body_len = body.as_str().len();
                push_decimal(body_len as u64, &mut out);
                out.append("\r\n\r\n");
                out.append(body.as_str());
                proof {
                    assert(out@ =~= spec_render(self@));
                }
            },
            None => {
                out.append("\r\n\r\n");
                proof {
                    assert(out@ =~= spec_render(self@));
                }
            },
        }
        out
    }
}

} // verus!
