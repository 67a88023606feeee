//! Request classification: deciding whether a request asks for a static
//! file, and rewriting it onto the reserved static route when it does.

use vstd::prelude::*;
use crate::request::{Request, ReqView, StaticRequestData};
use crate::strutil::{chars_of, spec_lower, str_eq, string_from_range, lowercase};

verus! {

/// The suffix of `s` after the last occurrence of `c`; the whole string when
/// `c` does not occur in it.
pub open spec fn spec_after_last(s: Seq<char>, c: char) -> Seq<char>
    decreases s.len(),
{
    if s.len() == 0 {
        s
    } else if s.last() == c {
        Seq::empty()
    } else {
        spec_after_last(s.drop_last(), c).push(s.last())
    }
}

/// The final path component: what follows the last slash.
pub open spec fn spec_file_component(path: Seq<char>) -> Seq<char> {
    spec_after_last(path, '/')
}

/// The extension of a path: what follows the last dot of its final
/// component, provided that component has a dot somewhere past its first
/// character. A component with no dot, or with a dot only at its very start,
/// has no extension.
pub open spec fn spec_extension(path: Seq<char>) -> Option<Seq<char>> {
    let name = spec_file_component(path);
    if name.len() > 0 && name.drop_first().contains('.') {
        Some(spec_after_last(name, '.'))
    } else {
        None
    }
}

/// The suffix of `s` after the last occurrence of `c`, or the whole string
/// when `c` does not occur, as `spec_after_last` lays down.
pub fn after_last(s: &str, c: char) -> (r: String)
    ensures
        r@ == spec_after_last(s@, c),
{
    let cs = chars_of(s);
    let n = cs.len();
    let mut start: usize = 0;
    let mut i: usize = 0;
    proof {
        assert(cs@.take(0) =~= Seq::<char>::empty());
        assert(cs@.subrange(0, 0) =~= Seq::<char>::empty());
    }
    while i < n
        invariant
            start <= i <= n,
            n == cs@.len(),
            spec_after_last(cs@.take(i as int), c) == cs@.subrange(start as int, i as int),
        decreases n - i,
    {
        proof {
            assert(cs@.take(i as int + 1).drop_last() =~= cs@.take(i as int));
            assert(cs@.take(i as int + 1).last() == cs@[i as int]);
        }
        if cs[i] == c {
            start = i + 1;
            assert(cs@.subrange(start as int, i as int + 1) =~= Seq::<char>::empty());
        } else {
            assert(cs@.subrange(start as int, i as int).push(cs@[i as int]) =~= cs@.subrange(
                start as int,
                i as int + 1,
            ));
        }
        i = i + 1;
    }
    proof {
        assert(cs@.take(n as int) =~= cs@);
    }
    string_from_range(&cs, start, n)
}

/// True when the extension names one of the static file kinds, compared
/// case-insensitively: html, css, js, png, jpg, jpeg, gif or ico.
pub open spec fn spec_is_static_ext(ext: Seq<char>) -> bool {
    let l = spec_lower(ext);
    l == "html"@ || l == "css"@ || l == "js"@ || l == "png"@ || l == "jpg"@ || l == "jpeg"@ || l
        == "gif"@ || l == "ico"@
}

/// True when a file extension marks a request as a static-file request.
pub fn is_static_file(file_extension: &str) -> (r: bool)
    ensures
        r == spec_is_static_ext(file_extension@),
{
    let l = lowercase(file_extension);
    str_eq(l.as_str(), "html") || str_eq(l.as_str(), "css") || str_eq(l.as_str(), "js") || str_eq(
        l.as_str(),
        "png",
    ) || str_eq(l.as_str(), "jpg") || str_eq(l.as_str(), "jpeg") || str_eq(l.as_str(), "gif")
        || str_eq(l.as_str(), "ico")
}

/// The extension of a path, as `spec_extension` lays down.
pub fn extension_of(path: &str) -> (r: Option<String>)
    ensures
        match r {
            Some(e) => spec_extension(path@) == Some(e@),
            None => spec_extension(path@) is None,
        },
{
    let cs = chars_of(path);
    let n = cs.len();
    // Find the start of the final path component.
    let mut start: usize = 0;
    let mut i: usize = 0;
    proof {
        assert(cs@.take(0) =~= Seq::<char>::empty());
        assert(cs@.subrange(0, 0) =~= Seq::<char>::empty());
    }
    while i < n
        invariant
            start <= i <= n,
            n == cs@.len(),
            spec_after_last(cs@.take(i as int), '/') == cs@.subrange(start as int, i as int),
        decreases n - i,
    {
        proof {
            assert(cs@.take(i as int + 1).drop_last() =~= cs@.take(i as int));
            assert(cs@.take(i as int + 1).last() == cs@[i as int]);
        }
        if cs[i] == '/' {
            start = i + 1;
            assert(cs@.subrange(start as int, i as int + 1) =~= Seq::<char>::empty());
        } else {
            assert(cs@.subrange(start as int, i as int).push(cs@[i as int]) =~= cs@.subrange(
                start as int,
                i as int + 1,
            ));
        }
        i = i + 1;
    }
    proof {
        assert(cs@.take(n as int) =~= cs@);
    }
    let ghost name = spec_file_component(cs@);
    proof {
        assert(name == cs@.subrange(start as int, n as int));
    }
    // Find the last dot of the component, and whether any dot stands past
    // its first character.
    let mut tail: usize = start;
    let mut seen: bool = false;
    let mut j: usize = start;
    proof {
        assert(cs@.subrange(start as int, start as int) =~= Seq::<char>::empty());
    }
    while j < n
        invariant
            start <= tail <= j <= n,
            n == cs@.len(),
            spec_after_last(cs@.subrange(start as int, j as int), '.') == cs@.subrange(
                tail as int,
                j as int,
            ),
            seen <==> exists|t: int| start < t < j && cs@[t] == '.',
        decreases n - j,
    {
        proof {
            assert(cs@.subrange(start as int, j as int + 1).drop_last() =~= cs@.subrange(
                start as int,
                j as int,
            ));
            assert(cs@.subrange(start as int, j as int + 1).last() == cs@[j as int]);
        }
        if cs[j] == '.' {
            tail = j + 1;
            if j > start {
                seen = true;
            }
            assert(cs@.subrange(tail as int, j as int + 1) =~= Seq::<char>::empty());
        } else {
            assert(cs@.subrange(tail as int, j as int).push(cs@[j as int]) =~= cs@.subrange(
                tail as int,
                j as int + 1,
            ));
        }
        j = j + 1;
    }
    if seen {
        proof {
            let t = choose|t: int| start < t < n && cs@[t] == '.';
            assert(name.drop_first() =~= cs@.subrange(start as int + 1, n as int));
            assert(name.drop_first()[t - start - 1] == '.');
            assert(name.drop_first().contains('.'));
        }
        let ext = string_from_range(&cs, tail, n);
        Some(ext)
    } else {
        proof {
            if name.len() > 0 {
                assert(name.drop_first() =~= cs@.subrange(start as int + 1, n as int));
                if name.drop_first().contains('.') {
                    let t = choose|t: int|
                        0 <= t < name.drop_first().len() && name.drop_first()[t] == '.';
                    assert(cs@[start as int + 1 + t] == '.');
                }
            }
        }
        None
    }
}

/// What classification does to a request: a bare "/" is sent to the static
/// route with empty metadata; a path whose extension is one of the static
/// kinds is sent to the static route carrying the original path; every other
/// request is left untouched.
pub open spec fn spec_classify(r: ReqView) -> ReqView {
    if r.path == "/"@ {
        ReqView { path: "/static"@, static_request_data: Some(None), ..r }
    } else {
        match spec_extension(r.path) {
            Some(e) => if spec_is_static_ext(e) {
                ReqView { path: "/static"@, static_request_data: Some(Some(r.path)), ..r }
            } else {
                r
            },
            None => r,
        }
    }
}

/// Classifies a request in place, as `spec_classify` lays down: a static
/// request has its path rewritten to "/static" and keeps its original path
/// as metadata; any other request is left unchanged.
pub fn check_static_request(request: &mut Request)
    ensures
        final(request)@ == spec_classify(old(request)@),
{
    if str_eq(request.path.as_str(), "/") {
        request.static_request_data = Some(StaticRequestData { path: None });
        request.path = "/static".to_owned();
        proof {
            assert(request@ =~= spec_classify(old(request)@));
        }
    } else {
        let ext = extension_of(request.path.as_str());
        match ext {
            Some(e) => {
                if is_static_file(e.as_str()) {
                    let original = request.path.clone();
                    request.static_request_data = Some(
                        StaticRequestData { path: Some(original) },
                    );
                    request.path = "/static".to_owned();
                    proof {
                        assert(request@ =~= spec_classify(old(request)@));
                    }
                } else {
                    proof {
                        assert(request@ =~= spec_classify(old(request)@));
                    }
                }
            },
            None => {
                proof {
                    assert(request@ =~= spec_classify(old(request)@));
                }
            },
        }
    }
}

/// Every request whose path carries one of the static extensions is
/// rewritten onto the reserved static route, with the original path kept as
/// its static metadata; the method and the headers are untouched.
pub proof fn lemma_static_classification(r: ReqView)
    requires
        match spec_extension(r.path) {
            Some(e) => spec_is_static_ext(e),
            None => false,
        },
    ensures
        spec_classify(r).path == "/static"@,
        spec_classify(r).static_request_data == Some(Some(r.path)),
        spec_classify(r).method == r.method,
        spec_classify(r).headers == r.headers,
{
    if r.path == "/"@ {
        reveal_strlit("/");
        assert(r.path.len() == 1);
        assert(r.path.last() == '/');
        assert(spec_file_component(r.path) =~= Seq::<char>::empty());
        assert(spec_extension(r.path) is None);
    }
}

} // verus!
