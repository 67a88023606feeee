//! The request model: a parsed HTTP request, and the line-by-line parser that
//! builds one from the text a connection sent. Malformed input degrades to a
//! best-effort partial request instead of failing.

use vstd::prelude::*;
use crate::method::{spec_kind_of, Method, MethodKind};
use crate::strutil::{
    chars_of, skip_spaces, spec_after_token, spec_head_token, spec_starts_with, spec_trim_leading,
    str_eq, str_starts_with, string_from_range, token_end,
};
use vstd::pervasive::VecAdditionalExecFns;

verus! {

/// Routing metadata attached when a request is classified as static: the
/// original sub-resource path, or nothing for a bare "/" request.
pub struct StaticRequestData {
    pub path: Option<String>,
}

impl View for StaticRequestData {
    type V = Option<Seq<char>>;

    open spec fn view(&self) -> Option<Seq<char>> {
        match self.path {
            Some(p) => Some(p@),
            None => None,
        }
    }
}

/// A parsed HTTP request: method, path, headers in the order they arrived,
/// and optional static-routing metadata.
pub struct Request {
    pub method: Method,
    pub path: String,
    pub headers: Vec<(String, String)>,
    pub static_request_data: Option<StaticRequestData>,
}

/// The mathematical content of a request.
#[verifier::ext_equal]
pub struct ReqView {
    pub method: MethodKind,
    pub path: Seq<char>,
    pub headers: Seq<(Seq<char>, Seq<char>)>,
    pub static_request_data: Option<Option<Seq<char>>>,
}

impl View for Request {
    type V = ReqView;

    open spec fn view(&self) -> ReqView {
        ReqView {
            method: self.method.kind(),
            path: self.path@,
            headers: Seq::new(self.headers@.len(), |i: int| (self.headers@[i].0@, self.headers@[i].1@)),
            static_request_data: match self.static_request_data {
                Some(d) => Some(d@),
                None => None,
            },
        }
    }
}

/// True when a line opens with one of the four method names.
pub open spec fn spec_is_request_line(line: Seq<char>) -> bool {
    ||| spec_starts_with(line, "GET"@)
    ||| spec_starts_with(line, "POST"@)
    ||| spec_starts_with(line, "PUT"@)
    ||| spec_starts_with(line, "DELETE"@)
}

/// The first space-separated token of a line.
pub open spec fn spec_token1(line: Seq<char>) -> Seq<char> {
    spec_head_token(spec_trim_leading(line))
}

/// The second space-separated token of a line.
pub open spec fn spec_token2(line: Seq<char>) -> Seq<char> {
    spec_head_token(spec_trim_leading(spec_after_token(spec_trim_leading(line))))
}

/// True when position `i` of `s` starts the two-character header separator,
/// a colon followed by a space.
pub open spec fn spec_sep_at(s: Seq<char>, i: int) -> bool {
    0 <= i && i + 1 < s.len() && s[i] == ':' && s[i + 1] == ' '
}

/// How many positions at or past `i` start the header separator.
pub open spec fn spec_sep_count_from(s: Seq<char>, i: int) -> nat
    decreases s.len() - i,
{
    if i < 0 || i + 1 >= s.len() {
        0
    } else {
        (if spec_sep_at(s, i) {
            1nat
        } else {
            0nat
        }) + spec_sep_count_from(s, i + 1)
    }
}

/// The first position at or past `i` that starts the header separator, or
/// the line's length if none does.
pub open spec fn spec_first_sep_from(s: Seq<char>, i: int) -> int
    decreases s.len() - i,
{
    if i < 0 || i + 1 >= s.len() {
        s.len() as int
    } else if spec_sep_at(s, i) {
        i
    } else {
        spec_first_sep_from(s, i + 1)
    }
}

/// The header a line carries: present exactly when the "name: value"
/// separator occurs once in it; the name is what stands before the separator
/// and the value what stands after it.
pub open spec fn spec_header_entry(line: Seq<char>) -> Option<(Seq<char>, Seq<char>)> {
    if spec_sep_count_from(line, 0) == 1 {
        Some(
            (
                line.subrange(0, spec_first_sep_from(line, 0)),
                line.subrange(spec_first_sep_from(line, 0) + 2, line.len() as int),
            ),
        )
    } else {
        None
    }
}

/// The empty request a connection starts from: `GET`, empty path, no
/// headers, no static metadata.
pub open spec fn spec_default_req() -> ReqView {
    ReqView {
        method: MethodKind::Get,
        path: Seq::empty(),
        headers: Seq::empty(),
        static_request_data: None,
    }
}

/// The header list with `name` bound to `value`: a name already present
/// keeps its place and gets the new value — the last store for a name wins,
/// as in a mapping — and a new name is appended.
pub open spec fn spec_set_header(
    hs: Seq<(Seq<char>, Seq<char>)>,
    name: Seq<char>,
    value: Seq<char>,
) -> Seq<(Seq<char>, Seq<char>)>
    decreases hs.len(),
{
    if hs.len() == 0 {
        seq![(name, value)]
    } else if hs[0].0 == name {
        seq![(name, value)] + hs.drop_first()
    } else {
        seq![hs[0]] + spec_set_header(hs.drop_first(), name, value)
    }
}

/// Storing under a name that first occurs at `j` updates that entry alone.
proof fn lemma_set_header_at(
    hs: Seq<(Seq<char>, Seq<char>)>,
    name: Seq<char>,
    value: Seq<char>,
    j: int,
)
    requires
        0 <= j < hs.len(),
        hs[j].0 == name,
        forall|t: int| 0 <= t < j ==> hs[t].0 != name,
    ensures
        spec_set_header(hs, name, value) == hs.update(j, (name, value)),
    decreases j,
{
    if j == 0 {
        assert(seq![(name, value)] + hs.drop_first() =~= hs.update(0, (name, value)));
    } else {
        assert(hs.drop_first()[j - 1] == hs[j]);
        assert forall|t: int| 0 <= t < j - 1 implies hs.drop_first()[t].0 != name by {
            assert(hs.drop_first()[t] == hs[t + 1]);
        }
        lemma_set_header_at(hs.drop_first(), name, value, j - 1);
        assert(seq![hs[0]] + hs.drop_first().update(j - 1, (name, value)) =~= hs.update(
            j,
            (name, value),
        ));
    }
}

/// Storing under a name that does not occur appends the entry.
proof fn lemma_set_header_absent(
    hs: Seq<(Seq<char>, Seq<char>)>,
    name: Seq<char>,
    value: Seq<char>,
)
    requires
        forall|t: int| 0 <= t < hs.len() ==> hs[t].0 != name,
    ensures
        spec_set_header(hs, name, value) == hs.push((name, value)),
    decreases hs.len(),
{
    if hs.len() == 0 {
        assert(seq![(name, value)] =~= hs.push((name, value)));
    } else {
        assert forall|t: int| 0 <= t < hs.drop_first().len() implies hs.drop_first()[t].0
            != name by {
            assert(hs.drop_first()[t] == hs[t + 1]);
        }
        lemma_set_header_absent(hs.drop_first(), name, value);
        assert(seq![hs[0]] + hs.drop_first().push((name, value)) =~= hs.push((name, value)));
    }
}

/// One parsing pass over the remaining lines, starting from request state
/// `r`. A line that opens with a method name sets the method and path —
/// unless its first token is not a supported method, which stops parsing
/// with the request as built so far. Any other line stores a header when it
/// splits cleanly at one "name: value" separator — a repeated name keeps
/// its last value — and is ignored otherwise.
pub open spec fn spec_parse_lines(r: ReqView, lines: Seq<Seq<char>>) -> ReqView
    decreases lines.len(),
{
    if lines.len() == 0 {
        r
    } else {
        let line = lines[0];
        if spec_is_request_line(line) {
            match spec_kind_of(spec_token1(line)) {
                Some(k) => spec_parse_lines(
                    ReqView { method: k, path: spec_token2(line), ..r },
                    lines.drop_first(),
                ),
                None => r,
            }
        } else {
            match spec_header_entry(line) {
                Some(h) => spec_parse_lines(
                    ReqView { headers: spec_set_header(r.headers, h.0, h.1), ..r },
                    lines.drop_first(),
                ),
                None => spec_parse_lines(r, lines.drop_first()),
            }
        }
    }
}

/// The request that parsing a whole message yields.
pub open spec fn spec_parse(lines: Seq<Seq<char>>) -> ReqView {
    spec_parse_lines(spec_default_req(), lines)
}

/// Splits a header line at its single "name: value" separator, if it has
/// exactly one.
pub fn split_header_line(line: &str) -> (r: Option<(String, String)>)
    ensures
        match r {
            Some(h) => spec_header_entry(line@) == Some((h.0@, h.1@)),
            None => spec_header_entry(line@) is None,
        },
{
    let cs = chars_of(line);
    let n = cs.len();
    let mut count: usize = 0;
    let mut first: usize = n;
    let mut i: usize = 0;
    let m: usize = if n > 0 {
        n - 1
    } else {
        0
    };
    while i < m
        invariant
            m as int == (if n > 0 {
                n - 1
            } else {
                0
            }),
            cs@ == line@,
            n == cs@.len(),
            i <= n,
            count <= i,
            count as nat + spec_sep_count_from(cs@, i as int) == spec_sep_count_from(cs@, 0),
            spec_first_sep_from(cs@, 0) == (if count > 0 {
                first as int
            } else {
                spec_first_sep_from(cs@, i as int)
            }),
            count > 0 ==> spec_sep_at(cs@, first as int),
        decreases n - i,
    {
        if cs[i] == ':' && cs[i + 1] == ' ' {
            if count == 0 {
                first = i;
            }
            count = count + 1;
        }
        i = i + 1;
    }
    proof {
        assert(spec_sep_count_from(cs@, i as int) == 0);
        assert(spec_first_sep_from(cs@, i as int) == n as int);
    }
    if count == 1 {
        let name = string_from_range(&cs, 0, first);
        let value = string_from_range(&cs, first + 2, n);
        Some((name, value))
    } else {
        None
    }
}

impl Request {
    /// Stores a header, as `spec_set_header` lays down: a name already
    /// present keeps its place and gets the new value; a new name is
    /// appended. Nothing else about the request changes.
    pub fn set_header(&mut self, name: String, value: String)
        ensures
            final(self)@ == (ReqView {
                headers: spec_set_header(old(self)@.headers, name@, value@),
                ..old(self)@
            }),
    {
        let ghost pre = self@;
        let n = self.headers.len();
        let mut idx: usize = n;
        let mut j: usize = 0;
        while j < n
            invariant
                j <= n,
                idx <= n,
                n == self.headers@.len(),
                *self == *old(self),
                idx == n ==> forall|t: int| 0 <= t < j ==> self@.headers[t].0 != name@,
                idx < n ==> {
                    &&& idx < j
                    &&& self@.headers[idx as int].0 == name@
                    &&& forall|t: int| 0 <= t < idx ==> self@.headers[t].0 != name@
                },
            decreases n - j,
        {
            if idx == n && str_eq(self.headers[j].0.as_str(), name.as_str()) {
                idx = j;
            }
            j = j + 1;
        }
        if idx < n {
            proof {
                lemma_set_header_at(pre.headers, name@, value@, idx as int);
            }
            self.headers.set(idx, (name, value));
            proof {
                assert(self@.headers =~= pre.headers.update(idx as int, (name@, value@)));
                assert(self@ =~= (ReqView {
                    headers: spec_set_header(pre.headers, name@, value@),
                    ..pre
                }));
            }
        } else {
            proof {
                lemma_set_header_absent(pre.headers, name@, value@);
            }
            self.headers.push((name, value));
            proof {
                assert(self@.headers =~= pre.headers.push((name@, value@)));
                assert(self@ =~= (ReqView {
                    headers: spec_set_header(pre.headers, name@, value@),
                    ..pre
                }));
            }
        }
    }

    /// True when the line opens like a request line: with one of the four
    /// supported method names.
    pub fn starts_with_http_request_type(line: &str) -> (r: bool)
        ensures
            r == spec_is_request_line(line@),
    {
        str_starts_with(line, "GET") || str_starts_with(line, "POST") || str_starts_with(
            line,
            "PUT",
        ) || str_starts_with(line, "DELETE")
    }

    /// The method token and path token of a request line: its first two
    /// space-separated tokens, either empty if missing.
    pub fn get_request_type_info(line: &String) -> (r: (String, String))
        ensures
            r.0@ == spec_token1(line@),
            r.1@ == spec_token2(line@),
    {
        let cs = chars_of(line.as_str());
        proof {
            assert(cs@.skip(0) =~= cs@);
        }
        let a: usize = skip_spaces(&cs, 0);
        let b: usize = token_end(&cs, a);
        let t1 = string_from_range(&cs, a, b);
        let e: usize = skip_spaces(&cs, b);
        let f: usize = token_end(&cs, e);
        let t2 = string_from_range(&cs, e, f);
        (t1, t2)
    }

    /// Builds a request from the lines of a message, as `spec_parse` lays
    /// down: best effort, never failing.
    pub fn get_request_struct(lines: Vec<String>) -> (r: Request)
        ensures
            r@ == spec_parse(lines.deep_view()),
    {
        let ghost dv = lines.deep_view();
        let mut request = Request {
            method: Method::default(),
            path: String::new(),
            headers: Vec::new(),
            static_request_data: None,
        };
        proof {
            assert(request@ =~= spec_default_req());
            assert(dv.skip(0) =~= dv);
        }
        let mut idx: usize = 0;
        while idx < lines.len()
            invariant
                idx <= lines@.len(),
                dv == lines.deep_view(),
                dv.len() == lines@.len(),
                spec_parse_lines(request@, dv.skip(idx as int)) == spec_parse(dv),
            decreases lines@.len() - idx,
        {
            let line: &String = &lines[idx];
            let ghost pre = request@;
            proof {
                assert(dv[idx as int] == lines@[idx as int]@);
                assert(dv.skip(idx as int)[0] == dv[idx as int]);
                assert(dv.skip(idx as int).drop_first() =~= dv.skip(idx as int + 1));
            }
            if Request::starts_with_http_request_type(line.as_str()) {
                let info = Request::get_request_type_info(line);
                match Method::from_str(info.0.as_str()) {
                    Some(m) => {
                        request.method = m;
                        request.path = info.1;
                        proof {
                            assert(request@ =~= ReqView {
                                method: m.kind(),
                                path: spec_token2(dv[idx as int]),
                                ..pre
                            });
                        }
                    },
                    None => {
                        return request;
                    },
                }
            } else {
                match split_header_line(line.as_str()) {
                    Some(h) => {
                        let ghost hv = (h.0@, h.1@);
                        request.set_header(h.0, h.1);
                        proof {
                            assert(request@ == (ReqView {
                                headers: spec_set_header(pre.headers, hv.0, hv.1),
                                ..pre
                            }));
                        }
                    },
                    None => {},
                }
            }
            idx = idx + 1;
        }
        proof {
            assert(dv.skip(idx as int) =~= Seq::<Seq<char>>::empty());
        }
        request
    }
}

} // verus!
