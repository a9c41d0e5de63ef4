//! The goroutine count of a Go service, from the plain-text goroutine
//! profile of its pprof endpoint.
use crate::text::{
    chars_of, concat, contains_chars, contains_str, find_chars, find_str, first_word, has_prefix,
    lines, lines_of, owned, parse_u64_chars, parse_u64_spec, slice_range, slice_skip, split_once,
    split_once_chars, string_from, strip_prefix, strip_prefix_chars, trim_matches_char,
    trim_start_char, trim_end_char, vviews, words_of,
};
use vstd::prelude::*;

verus! {

/// The most bytes of a pprof response that are read.
pub const MAX_RESPONSE_BYTES: u64 = 128 * 1024;

/// How long, in milliseconds, a connection, a write or a read may take.
pub const IO_TIMEOUT_MILLIS: u64 = 750;

/// Where to connect and what to ask for.
pub struct HttpEndpoint {
    pub authority: String,
    pub goroutine_path: String,
}

pub struct EndpointView {
    pub authority: Seq<char>,
    pub goroutine_path: Seq<char>,
}

impl View for HttpEndpoint {
    type V = EndpointView;

    open spec fn view(&self) -> EndpointView {
        EndpointView { authority: self.authority@, goroutine_path: self.goroutine_path@ }
    }
}

pub open spec fn goroutine_suffix() -> Seq<char> {
    "/debug/pprof/goroutine?debug=1"@
}

/// The endpoint of a base URL `http://HOST[:PORT][/BASE]`: the port is 80
/// where none is given, and the goroutine profile lies below the base path.
pub open spec fn endpoint_spec(base_url: Seq<char>) -> Result<EndpointView, Seq<char>> {
    match strip_prefix(base_url, "http://"@) {
        None => Err("pprof URL must start with http://"@),
        Some(value) => {
            let (authority, base_path) = match split_once(value, '/') {
                Some(p) => p,
                None => (value, Seq::<char>::empty()),
            };
            if authority.len() == 0 {
                Err("pprof URL is missing a host"@)
            } else {
                let base = trim_end_char(trim_start_char(base_path, '/'), '/');
                Ok(
                    EndpointView {
                        authority: if authority.contains(':') {
                            authority
                        } else {
                            authority + ":80"@
                        },
                        goroutine_path: if base.len() == 0 {
                            goroutine_suffix()
                        } else {
                            "/"@ + base + goroutine_suffix()
                        },
                    },
                )
            }
        },
    }
}

pub open spec fn endpoint_view(r: Result<HttpEndpoint, String>) -> Result<EndpointView, Seq<char>> {
    match r {
        Ok(e) => Ok(e@),
        Err(m) => Err(m@),
    }
}

fn has_colon(s: &Vec<char>) -> (b: bool)
    ensures
        b == s@.contains(':'),
{
    match crate::text::position(s.as_slice(), ':') {
        Some(i) => true,
        None => {
            proof {
                crate::text::lemma_find_char(s@, ':');
            }
            false
        },
    }
}

impl HttpEndpoint {
    pub fn parse(base_url: &str) -> (r: Result<Self, String>)
        ensures
            endpoint_view(r) == endpoint_spec(base_url@),
    {
        let u = chars_of(base_url);
        let p = chars_of("http://");
        let value = match strip_prefix_chars(u.as_slice(), p.as_slice()) {
            Some(v) => v,
            None => return Err(owned("pprof URL must start with http://")),
        };
        let (authority, base_path) = match split_once_chars(value.as_slice(), '/') {
            Some(pair) => pair,
            None => (slice_skip(value.as_slice(), 0), Vec::new()),
        };
        assert(value@.skip(0) == value@);
        if authority.len() == 0 {
            return Err(owned("pprof URL is missing a host"));
        }
        let a = string_from(authority.as_slice());
        let authority_s = if has_colon(&authority) {
            a
        } else {
            concat(a.as_str(), ":80")
        };
        let base = trim_matches_char(base_path.as_slice(), '/');
        let goroutine_path = if base.len() == 0 {
            owned("/debug/pprof/goroutine?debug=1")
        } else {
            let b = string_from(base.as_slice());
            crate::text::concat3("/", b.as_str(), "/debug/pprof/goroutine?debug=1")
        };
        Ok(HttpEndpoint { authority: authority_s, goroutine_path })
    }

    /// The HTTP/1.1 request for the goroutine profile.
    pub fn request(&self) -> (s: String)
        ensures
            s@ == "GET "@ + self.goroutine_path@ + " HTTP/1.1\r\nHost: "@ + self.authority@
                + "\r\nConnection: close\r\nAccept: text/plain\r\n\r\n"@,
    {
        let mut s = concat("GET ", self.goroutine_path.as_str());
        s.append(" HTTP/1.1\r\nHost: ");
        s.append(self.authority.as_str());
        s.append("\r\nConnection: close\r\nAccept: text/plain\r\n\r\n");
        s
    }
}

pub open spec fn count_marker() -> Seq<char> {
    "goroutine profile: total "@
}

/// The number after the first `goroutine profile: total ` of the body, as
/// `split(marker).nth(1)` and its first field give it.
pub open spec fn goroutine_count_spec(body: Seq<char>) -> Option<u64> {
    let m = count_marker();
    match find_str(body, m) {
        None => None,
        Some(i) => {
            let after = body.skip(i + m.len());
            let piece = match find_str(after, m) {
                Some(j) => after.take(j),
                None => after,
            };
            match first_word(piece) {
                Some(w) => parse_u64_spec(w),
                None => None,
            }
        },
    }
}

pub fn parse_goroutine_count(body: &str) -> (r: Option<u64>)
    ensures
        r == goroutine_count_spec(body@),
{
    let b = chars_of(body);
    let m = chars_of("goroutine profile: total ");
    let i = match find_chars(b.as_slice(), m.as_slice()) {
        Some(i) => i,
        None => return None,
    };
    let after = slice_skip(b.as_slice(), i + m.len());
    let piece = match find_chars(after.as_slice(), m.as_slice()) {
        Some(j) => slice_range(after.as_slice(), 0, j),
        None => slice_skip(after.as_slice(), 0),
    };
    assert(after@.skip(0) == after@);
    assert(after@.subrange(0, after@.len() as int) == after@);
    let w = words_of(piece.as_slice());
    if w.len() == 0 {
        return None;
    }
    assert(vviews(w@)[0] == w@[0]@);
    parse_u64_chars(w[0].as_slice())
}

/// The goroutine count from a whole HTTP response: the headers end at the
/// first blank line, the status line must hold ` 200 `, and the body must
/// hold the count.
pub open spec fn response_count_spec(response: Seq<char>) -> Result<u64, Seq<char>> {
    let sep = "\r\n\r\n"@;
    match find_str(response, sep) {
        None => Err("invalid HTTP response from pprof"@),
        Some(i) => {
            let headers = response.take(i);
            let body = response.skip(i + sep.len());
            let hl = lines(headers);
            let status = if hl.len() > 0 {
                hl[0]
            } else {
                Seq::<char>::empty()
            };
            if !contains_str(status, " 200 "@) {
                Err(
                    "pprof returned "@ + if hl.len() > 0 {
                        hl[0]
                    } else {
                        "an invalid status"@
                    },
                )
            } else {
                match goroutine_count_spec(body) {
                    Some(n) => Ok(n),
                    None => Err("pprof response did not contain a goroutine count"@),
                }
            }
        },
    }
}

pub fn goroutine_count_from_response(response: &str) -> (r: Result<u64, String>)
    ensures
        crate::cli::u64_result_view(r) == response_count_spec(response@),
{
    let c = chars_of(response);
    let sep = chars_of("\r\n\r\n");
    let i = match find_chars(c.as_slice(), sep.as_slice()) {
        Some(i) => i,
        None => return Err(owned("invalid HTTP response from pprof")),
    };
    let headers = slice_range(c.as_slice(), 0, i);
    let body = slice_skip(c.as_slice(), i + sep.len());
    let hl = lines_of(headers.as_slice());
    let status: Vec<char> = if hl.len() > 0 {
        slice_skip(hl[0].as_slice(), 0)
    } else {
        Vec::new()
    };
    assert(hl.len() > 0 ==> vviews(hl@)[0] == hl@[0]@ && hl@[0]@.skip(0) == hl@[0]@);
    let code = chars_of(" 200 ");
    if !contains_chars(status.as_slice(), code.as_slice()) {
        let shown = if hl.len() > 0 {
            string_from(status.as_slice())
        } else {
            owned("an invalid status")
        };
        return Err(concat("pprof returned ", shown.as_str()));
    }
    let body_s = string_from(body.as_slice());
    match parse_goroutine_count(body_s.as_str()) {
        Some(n) => Ok(n),
        None => Err(owned("pprof response did not contain a goroutine count")),
    }
}

/// The status line of a response: the first line before the blank line.
pub open spec fn status_line(headers: Seq<char>) -> Seq<char> {
    if lines(headers).len() > 0 {
        lines(headers)[0]
    } else {
        Seq::<char>::empty()
    }
}

/// A response gives a count exactly when it has a blank line, its status
/// line holds ` 200 `, and the body after the blank line holds the count.
pub proof fn lemma_response_count(response: Seq<char>, n: u64)
    ensures
        response_count_spec(response) == Ok::<u64, Seq<char>>(n) <==> {
            &&& find_str(response, "\r\n\r\n"@) is Some
            &&& contains_str(
                status_line(response.take(find_str(response, "\r\n\r\n"@)->0)),
                " 200 "@,
            )
            &&& goroutine_count_spec(
                response.skip(find_str(response, "\r\n\r\n"@)->0 + "\r\n\r\n"@.len()),
            ) == Some(n)
        },
{
}

} // verus!
