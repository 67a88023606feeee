//! The fixed set of supported HTTP methods. A method token is recognized by
//! exact, case-sensitive string match; each variant carries the canonical
//! name it was parsed from.

use vstd::prelude::*;
use crate::strutil::str_eq;

verus! {

/// A supported HTTP method, carrying its wire-format name.
#[derive(Debug, Clone)]
pub enum Method {
    GET(String),
    POST(String),
    PUT(String),
    DELETE(String),
}

/// A method stripped of its carried name: the part of a `Method` that route
/// lookup distinguishes.
#[derive(Debug, Clone, Copy, PartialEq, Eq, Structural)]
pub enum MethodKind {
    Get,
    Post,
    Put,
    Delete,
}

/// The method a token names, if it names one: exactly one of the four
/// case-sensitive method names.
pub open spec fn spec_kind_of(s: Seq<char>) -> Option<MethodKind> {
    if s == "GET"@ {
        Some(MethodKind::Get)
    } else if s == "POST"@ {
        Some(MethodKind::Post)
    } else if s == "PUT"@ {
        Some(MethodKind::Put)
    } else if s == "DELETE"@ {
        Some(MethodKind::Delete)
    } else {
        None
    }
}

impl Method {
    /// Which of the four methods this value is.
    pub open spec fn kind(self) -> MethodKind {
        match self {
            Method::GET(_) => MethodKind::Get,
            Method::POST(_) => MethodKind::Post,
            Method::PUT(_) => MethodKind::Put,
            Method::DELETE(_) => MethodKind::Delete,
        }
    }

    /// Which of the four methods this value is, as an executable answer.
    pub fn kind_of(&self) -> (k: MethodKind)
        ensures
            k == self.kind(),
    {
        match self {
            Method::GET(_) => MethodKind::Get,
            Method::POST(_) => MethodKind::Post,
            Method::PUT(_) => MethodKind::Put,
            Method::DELETE(_) => MethodKind::Delete,
        }
    }

    /// True when the carried name is the canonical one for the variant.
    pub open spec fn canonical(self) -> bool {
        match self {
            Method::GET(s) => s@ == "GET"@,
            Method::POST(s) => s@ == "POST"@,
            Method::PUT(s) => s@ == "PUT"@,
            Method::DELETE(s) => s@ == "DELETE"@,
        }
    }

    /// The default method: `GET`, with its canonical name.
    pub fn default() -> (r: Method)
        ensures
            r is GET,
            r.canonical(),
    {
        Method::GET("GET".to_owned())
    }

    /// Parses a method token. Returns a method exactly when the token is one
    /// of the four supported names; the result is the matching variant with
    /// its canonical name.
    pub fn from_str(method: &str) -> (r: Option<Method>)
        ensures
            match r {
                Some(m) => m.canonical() && spec_kind_of(method@) == Some(m.kind()),
                None => spec_kind_of(method@) is None,
            },
    {
        proof {
            reveal_strlit("GET");
            reveal_strlit("POST");
            reveal_strlit("PUT");
            reveal_strlit("DELETE");
            assert("GET"@.len() == 3);
            assert("POST"@.len() == 4);
            assert("PUT"@.len() == 3);
            assert("DELETE"@.len() == 6);
            assert("GET"@[0] == 'G');
            assert("PUT"@[0] == 'P');
            assert("GET"@ != "PUT"@);
        }
        if str_eq(method, "GET") {
            Some(Method::GET("GET".to_owned()))
        } else if str_eq(method, "POST") {
            Some(Method::POST("POST".to_owned()))
        } else if str_eq(method, "PUT") {
            Some(Method::PUT("PUT".to_owned()))
        } else if str_eq(method, "DELETE") {
            Some(Method::DELETE("DELETE".to_owned()))
        } else {
            None
        }
    }

    /// The four supported method names, in their fixed order.
    pub fn get_str_vec() -> (r: Vec<&'static str>)
        ensures
            r@.len() == 4,
            r@[0]@ == "GET"@,
            r@[1]@ == "POST"@,
            r@[2]@ == "PUT"@,
            r@[3]@ == "DELETE"@,
    {
        let mut v: Vec<&'static str> = Vec::new();
        v.push("GET");
        v.push("POST");
        v.push("PUT");
        v.push("DELETE");
        v
    }
}

} // verus!
