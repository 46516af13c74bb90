//! The request object: the raw bytes of a connection parsed into method,
//! URI and protocol, the scanned headers, the cookie mapping, and the body
//! as an input mapping or a file mapping.

use vstd::prelude::*;
use crate::dict::entries_map;
use crate::dict::Dict;
use crate::dict::Table;
use crate::multipart::line_end;
use crate::multipart::spec_boundary;
use crate::multipart::spec_multipart_files;
use crate::multipart::spec_multipart_input;
use crate::multipart::File;
use crate::multipart::FileV;
use crate::percent::spec_decode;
use crate::percent::spec_plus_to_space;
use crate::route::Route;
use crate::text::bytes_of;
use crate::text::spec_find;
use crate::text::spec_remove;
use crate::text::spec_split;
use crate::text::spec_trim;
use crate::text::spec_trim_end_crlf;

verus! {

/// The rest of the line after the first occurrence of a header marker.
pub open spec fn spec_header_rest(raw: Seq<u8>, marker: Seq<u8>) -> Option<Seq<u8>> {
    match spec_find(raw, marker, 0) {
        None => None,
        Some(i) => {
            let e = line_end(raw, i);
            if e < i + marker.len() {
                Some(Seq::empty())
            } else {
                Some(raw.subrange(i + marker.len(), e))
            }
        },
    }
}

/// A header value: the rest of the header line, spaces removed, trailing
/// line terminators dropped.
pub open spec fn spec_header_value(raw: Seq<u8>, marker: Seq<u8>) -> Seq<u8> {
    match spec_header_rest(raw, marker) {
        None => Seq::empty(),
        Some(rest) => spec_trim_end_crlf(spec_remove(rest, 32)),
    }
}

/// The `Host` header value, percent-decoded; empty when absent.
pub open spec fn spec_host(raw: Seq<u8>) -> Seq<u8> {
    match spec_header_rest(raw, bytes_of("Host:"@)) {
        None => Seq::empty(),
        Some(rest) => spec_decode(spec_trim_end_crlf(spec_remove(rest, 32))),
    }
}

/// The `User-Agent` header value; empty when absent.
pub open spec fn spec_user_agent(raw: Seq<u8>) -> Seq<u8> {
    spec_header_value(raw, bytes_of("User-Agent:"@))
}

/// The `Referer` header value; empty when absent.
pub open spec fn spec_referer(raw: Seq<u8>) -> Seq<u8> {
    spec_header_value(raw, bytes_of("Referer:"@))
}

/// The name and value of one cookie segment: the parts before and after
/// its first `=`, whitespace-trimmed; nothing when it has no `=`.
pub open spec fn spec_cookie_pair(seg: Seq<u8>) -> Option<(Seq<u8>, Seq<u8>)> {
    match spec_find(seg, seq![61u8], 0) {
        None => None,
        Some(p) => Some(
            (spec_trim(seg.subrange(0, p)), spec_trim(seg.subrange(p + 1, seg.len() as int))),
        ),
    }
}

/// The cookie entries of the segments, in order, segments without `=`
/// dropped.
pub open spec fn cookie_entries(segs: Seq<Seq<u8>>) -> Seq<(Seq<u8>, Seq<u8>)>
    decreases segs.len(),
{
    if segs.len() == 0 {
        Seq::empty()
    } else {
        cookie_entries(segs.drop_last()) + (match spec_cookie_pair(segs.last()) {
            Some(p) => seq![p],
            None => Seq::empty(),
        })
    }
}

/// The cookie mapping of a request: the `Cookie` header value, spaces
/// removed, split on `;`, each segment with an `=` contributing one entry,
/// a later entry winning on a repeated name.
pub open spec fn spec_cookies(raw: Seq<u8>) -> Map<Seq<u8>, Seq<u8>> {
    match spec_header_rest(raw, bytes_of("Cookie:"@)) {
        None => Map::empty(),
        Some(rest) => entries_map(cookie_entries(spec_split(spec_remove(rest, 32), seq![59u8]))),
    }
}

/// The name and value of one URL-encoded body parameter: the parts before
/// and after its first `=`, the name percent-decoded, the value with `+`
/// read as space and then percent-decoded; nothing when it has no `=`.
pub open spec fn spec_param_pair(p: Seq<u8>) -> Option<(Seq<u8>, Seq<u8>)> {
    match spec_find(p, seq![61u8], 0) {
        None => None,
        Some(e) => Some(
            (
                spec_decode(p.subrange(0, e)),
                spec_decode(spec_plus_to_space(p.subrange(e + 1, p.len() as int))),
            ),
        ),
    }
}

/// The input entries of the parameters, in order, parameters without `=`
/// dropped.
pub open spec fn param_entries(params: Seq<Seq<u8>>) -> Seq<(Seq<u8>, Seq<u8>)>
    decreases params.len(),
{
    if params.len() == 0 {
        Seq::empty()
    } else {
        param_entries(params.drop_last()) + (match spec_param_pair(params.last()) {
            Some(p) => seq![p],
            None => Seq::empty(),
        })
    }
}

/// The URL-encoded body parameters: when the next-to-last `\r\n`-delimited
/// line is blank, the last line split on `&`; otherwise nothing.
pub open spec fn spec_body_params(raw: Seq<u8>) -> Seq<(Seq<u8>, Seq<u8>)> {
    let lines = spec_split(raw, bytes_of("\r\n"@));
    if lines.len() >= 2 && spec_trim(lines[lines.len() - 2]).len() == 0 {
        param_entries(spec_split(lines.last(), seq![38u8]))
    } else {
        Seq::empty()
    }
}

/// Whether the request declares a multipart body.
pub open spec fn spec_is_multipart(raw: Seq<u8>) -> bool {
    spec_find(raw, bytes_of("Content-Type: multipart/form-data;"@), 0) is Some
}

/// The input entries of a request, in order: the multipart field entries
/// when the body is multipart, the URL-encoded body parameters otherwise.
pub open spec fn spec_input_entries(raw: Seq<u8>) -> Seq<(Seq<u8>, Seq<u8>)> {
    if spec_is_multipart(raw) {
        match spec_boundary(raw) {
            Some(b) => crate::multipart::field_entries(crate::multipart::spec_scan(raw, b, 0)),
            None => Seq::empty(),
        }
    } else {
        spec_body_params(raw)
    }
}

/// The file entries of a request, in order: the multipart file entries
/// when the body is multipart, nothing otherwise.
pub open spec fn spec_file_entries(raw: Seq<u8>) -> Seq<(Seq<u8>, FileV)> {
    if spec_is_multipart(raw) {
        match spec_boundary(raw) {
            Some(b) => crate::multipart::file_entries(crate::multipart::spec_scan(raw, b, 0)),
            None => Seq::empty(),
        }
    } else {
        Seq::empty()
    }
}

/// The input mapping of a request, a later entry winning on a repeated
/// name.
pub open spec fn spec_input(raw: Seq<u8>) -> Map<Seq<u8>, Seq<u8>> {
    entries_map(spec_input_entries(raw))
}

/// The file mapping of a request, a later entry winning on a repeated
/// name.
pub open spec fn spec_files(raw: Seq<u8>) -> Map<Seq<u8>, FileV> {
    entries_map(spec_file_entries(raw))
}

/// The first line of the request.
pub open spec fn spec_first_line(raw: Seq<u8>) -> Seq<u8> {
    raw.subrange(0, line_end(raw, 0))
}

/// The space-separated tokens of the first line.
pub open spec fn spec_tokens(raw: Seq<u8>) -> Seq<Seq<u8>> {
    spec_split(spec_first_line(raw), seq![32u8])
}

/// The data sent by the browser.
pub struct Request {
    pub method: Vec<u8>,
    pub uri: Vec<u8>,
    pub protocol: Vec<u8>,
    pub cookies: Dict,
    pub host: Vec<u8>,
    pub user_agent: Vec<u8>,
    pub input: Dict,
    pub referer: Vec<u8>,
    pub files: Table<File>,
    pub raw: Vec<u8>,
    pub middleware: Dict,
    pub route: Option<Route>,
}

/// A needle of one byte.
fn byte_needle(b: u8) -> (r: Vec<u8>)
    ensures
        r@ == seq![b],
{
    let mut v: Vec<u8> = Vec::new();
    v.push(b);
    proof {
        assert(v@ =~= seq![b]);
    }
    v
}

/// The rest of the line after the first occurrence of `marker`.
fn header_rest(raw: &[u8], marker: &[u8]) -> (r: Option<Vec<u8>>)
    ensures
        match r {
            Some(v) => spec_header_rest(raw@, marker@) == Some(v@),
            None => spec_header_rest(raw@, marker@) is None,
        },
{
    let raw_len = raw.len();
    match crate::text::find(raw, marker, 0) {
        None => None,
        Some(i) => {
            proof {
                crate::text::lemma_find_some(raw@, marker@, 0, i as int);
                assert(i + marker@.len() <= raw_len);
            }
            let e = crate::multipart::line_end_exec(raw, i);
            if e < i + marker.len() {
                let v: Vec<u8> = Vec::new();
                proof {
                    assert(v@ =~= Seq::<u8>::empty());
                }
                Some(v)
            } else {
                Some(crate::text::subvec(raw, i + marker.len(), e))
            }
        },
    }
}

impl Request {
    /// Parses the cookie mapping of a request.
    pub fn parse_cookies(raw: &[u8]) -> (r: Dict)
        ensures
            r@ == spec_cookies(raw@),
    {
        let marker = crate::text::str_bytes("Cookie:");
        match header_rest(raw, marker.as_slice()) {
            None => Dict::new(),
            Some(rest) => {
                let cleaned = crate::text::remove_byte(rest.as_slice(), 32);
                let semi = byte_needle(59);
                let eq = byte_needle(61);
                let segs = crate::text::split(cleaned.as_slice(), semi.as_slice());
                let ghost gsegs = segs@.map_values(|p: Vec<u8>| p@);
                let mut r = Dict::new();
                let mut i: usize = 0;
                while i < segs.len()
                    invariant
                        eq@ == seq![61u8],
                        gsegs == segs@.map_values(|p: Vec<u8>| p@),
                        0 <= i <= segs@.len(),
                        r.seq_of() == cookie_entries(gsegs.subrange(0, i as int)),
                    decreases segs@.len() - i,
                {
                    let seg = &segs[i];
                    proof {
                        assert(gsegs.subrange(0, i + 1).drop_last() =~= gsegs.subrange(0, i as int));
                        assert(gsegs.subrange(0, i + 1).last() == seg@);
                    }
                    let seg_len = seg.len();
                    match crate::text::find(seg.as_slice(), eq.as_slice(), 0) {
                        Some(p) => {
                            proof {
                                crate::text::lemma_find_some(seg@, eq@, 0, p as int);
                                assert(p + 1 <= seg_len);
                            }
                            let k = crate::text::trim(
                                crate::text::subvec(seg.as_slice(), 0, p).as_slice(),
                            );
                            let v = crate::text::trim(
                                crate::text::subvec(seg.as_slice(), p + 1, seg.len()).as_slice(),
                            );
                            r.insert(k, v);
                        },
                        None => {},
                    }
                    i = i + 1;
                }
                proof {
                    assert(gsegs.subrange(0, gsegs.len() as int) =~= gsegs);
                }
                r
            },
        }
    }

    /// Parses the `Host` header of a request.
    pub fn parse_host(raw: &[u8]) -> (r: Vec<u8>)
        ensures
            r@ == spec_host(raw@),
    {
        let marker = crate::text::str_bytes("Host:");
        match header_rest(raw, marker.as_slice()) {
            None => Vec::new(),
            Some(rest) => {
                let cleaned = crate::text::remove_byte(rest.as_slice(), 32);
                let trimmed = crate::text::trim_end_crlf(cleaned.as_slice());
                crate::percent::decode(trimmed.as_slice())
            },
        }
    }

    /// Parses the `User-Agent` header of a request.
    pub fn parse_user_agent(raw: &[u8]) -> (r: Vec<u8>)
        ensures
            r@ == spec_user_agent(raw@),
    {
        let marker = crate::text::str_bytes("User-Agent:");
        match header_rest(raw, marker.as_slice()) {
            None => Vec::new(),
            Some(rest) => {
                let cleaned = crate::text::remove_byte(rest.as_slice(), 32);
                crate::text::trim_end_crlf(cleaned.as_slice())
            },
        }
    }

    /// Parses the `Referer` header of a request.
    pub fn parse_referer(raw: &[u8]) -> (r: Vec<u8>)
        ensures
            r@ == spec_referer(raw@),
    {
        let marker = crate::text::str_bytes("Referer:");
        match header_rest(raw, marker.as_slice()) {
            None => Vec::new(),
            Some(rest) => {
                let cleaned = crate::text::remove_byte(rest.as_slice(), 32);
                crate::text::trim_end_crlf(cleaned.as_slice())
            },
        }
    }

    /// Percent-decodes a URI or form token.
    pub fn parse_url_encoding(token: &[u8]) -> (r: Vec<u8>)
        ensures
            r@ == spec_decode(token@),
    {
        crate::percent::decode(token)
    }

    /// Parses the input mapping of a request body: one entry per field,
    /// in order of appearance.
    pub fn parse_input(raw: &[u8]) -> (r: Dict)
        ensures
            r.seq_of() == spec_input_entries(raw@),
            r@ == spec_input(raw@),
    {
        let mp_marker = crate::text::str_bytes("Content-Type: multipart/form-data;");
        if crate::text::contains(raw, mp_marker.as_slice()) {
            match crate::multipart::extract_boundary(raw) {
                Some(boundary) => {
                    let (fields, _files) = crate::multipart::parse_parts(raw, boundary.as_slice());
                    fields
                },
                None => Dict::new(),
            }
        } else {
            proof {
                crate::multipart::lemma_separator_lens();
            }
            let crlf = crate::text::str_bytes("\r\n");
            let lines = crate::text::split(raw, crlf.as_slice());
            let ghost glines = lines@.map_values(|p: Vec<u8>| p@);
            if lines.len() >= 2 && crate::text::trim(
                lines[lines.len() - 2].as_slice(),
            ).is_empty() {
                let amp = byte_needle(38);
                let eq = byte_needle(61);
                let params = crate::text::split(
                    lines[lines.len() - 1].as_slice(),
                    amp.as_slice(),
                );
                let ghost gparams = params@.map_values(|p: Vec<u8>| p@);
                proof {
                    assert(glines.last() == lines@[lines@.len() - 1]@);
                }
                let mut r = Dict::new();
                let mut i: usize = 0;
                while i < params.len()
                    invariant
                        eq@ == seq![61u8],
                        gparams == params@.map_values(|p: Vec<u8>| p@),
                        0 <= i <= params@.len(),
                        r.seq_of() == param_entries(gparams.subrange(0, i as int)),
                    decreases params@.len() - i,
                {
                    let p = &params[i];
                    proof {
                        assert(gparams.subrange(0, i + 1).drop_last() =~= gparams.subrange(
                            0,
                            i as int,
                        ));
                        assert(gparams.subrange(0, i + 1).last() == p@);
                    }
                    let p_len = p.len();
                    match crate::text::find(p.as_slice(), eq.as_slice(), 0) {
                        Some(e) => {
                            proof {
                                crate::text::lemma_find_some(p@, eq@, 0, e as int);
                                assert(e + 1 <= p_len);
                            }
                            let k = crate::percent::decode(
                                crate::text::subvec(p.as_slice(), 0, e).as_slice(),
                            );
                            let v = crate::percent::decode(
                                crate::percent::plus_to_space(
                                    crate::text::subvec(p.as_slice(), e + 1, p.len()).as_slice(),
                                ).as_slice(),
                            );
                            r.insert(k, v);
                        },
                        None => {},
                    }
                    i = i + 1;
                }
                proof {
                    assert(gparams.subrange(0, gparams.len() as int) =~= gparams);
                }
                r
            } else {
                Dict::new()
            }
        }
    }

    /// Parses the file mapping of a request body: one entry per file part,
    /// in order of appearance.
    pub fn parse_files(raw: &[u8]) -> (r: Table<File>)
        ensures
            r.seq_of() == spec_file_entries(raw@),
            r@ == spec_files(raw@),
    {
        let mp_marker = crate::text::str_bytes("Content-Type: multipart/form-data;");
        if crate::text::contains(raw, mp_marker.as_slice()) {
            match crate::multipart::extract_boundary(raw) {
                Some(boundary) => {
                    let (_fields, files) = crate::multipart::parse_parts(raw, boundary.as_slice());
                    files
                },
                None => Table::new(),
            }
        } else {
            Table::new()
        }
    }

    /// Parses a raw byte buffer into a request.
    ///
    /// Yields a request exactly when the first line splits on spaces into
    /// three or more tokens: method, percent-decoded URI and protocol,
    /// extra tokens ignored.  A buffer with fewer tokens yields nothing.
    pub fn new(buffer: &[u8]) -> (r: Option<Request>)
        ensures
            match r {
                Some(req) => {
                    &&& spec_tokens(buffer@).len() >= 3
                    &&& req.method@ == spec_tokens(buffer@)[0]
                    &&& req.uri@ == spec_decode(spec_trim(spec_tokens(buffer@)[1]))
                    &&& req.protocol@ == spec_tokens(buffer@)[2]
                    &&& req.cookies@ == spec_cookies(buffer@)
                    &&& req.host@ == spec_host(buffer@)
                    &&& req.user_agent@ == spec_user_agent(buffer@)
                    &&& req.input@ == spec_input(buffer@)
                    &&& req.input.seq_of() == spec_input_entries(buffer@)
                    &&& req.referer@ == spec_referer(buffer@)
                    &&& req.files@ == spec_files(buffer@)
                    &&& req.files.seq_of() == spec_file_entries(buffer@)
                    &&& req.raw@ == buffer@
                    &&& req.middleware@ == Map::<Seq<u8>, Seq<u8>>::empty()
                    &&& req.route is None
                },
                None => spec_tokens(buffer@).len() < 3,
            },
    {
        let first_end = crate::multipart::line_end_exec(buffer, 0);
        let first_line = crate::text::subvec(buffer, 0, first_end);
        let space = byte_needle(32);
        let tokens = crate::text::split(first_line.as_slice(), space.as_slice());
        proof {
            assert(first_line@ == spec_first_line(buffer@));
        }
        if tokens.len() < 3 {
            return None;
        }
        proof {
            assert(spec_tokens(buffer@)[0] == tokens@[0]@);
            assert(spec_tokens(buffer@)[1] == tokens@[1]@);
            assert(spec_tokens(buffer@)[2] == tokens@[2]@);
        }
        let method = crate::text::subvec(tokens[0].as_slice(), 0, tokens[0].len());
        let uri_token = crate::text::trim(tokens[1].as_slice());
        let uri = crate::percent::decode(uri_token.as_slice());
        let protocol = crate::text::subvec(tokens[2].as_slice(), 0, tokens[2].len());
        proof {
            assert(method@ =~= spec_tokens(buffer@)[0]);
            assert(protocol@ =~= spec_tokens(buffer@)[2]);
        }
        Some(
            Request {
                method,
                uri,
                protocol,
                cookies: Request::parse_cookies(buffer),
                host: Request::parse_host(buffer),
                user_agent: Request::parse_user_agent(buffer),
                input: Request::parse_input(buffer),
                referer: Request::parse_referer(buffer),
                files: Request::parse_files(buffer),
                raw: crate::text::subvec(buffer, 0, buffer.len()),
                middleware: Dict::new(),
                route: None,
            },
        )
    }

    /// The HTTP method of the request.
    pub fn get_method(&self) -> (r: &Vec<u8>)
        ensures
            r@ == self.method@,
    {
        &self.method
    }

    /// The URI of the request.
    pub fn get_uri(&self) -> (r: &Vec<u8>)
        ensures
            r@ == self.uri@,
    {
        &self.uri
    }

    /// The protocol of the request.
    pub fn get_protocol(&self) -> (r: &Vec<u8>)
        ensures
            r@ == self.protocol@,
    {
        &self.protocol
    }

    /// The cookie mapping of the request.
    pub fn get_cookies(&self) -> (r: &Dict)
        ensures
            r@ == self.cookies@,
    {
        &self.cookies
    }

    /// The `Host` header of the request.
    pub fn get_host(&self) -> (r: &Vec<u8>)
        ensures
            r@ == self.host@,
    {
        &self.host
    }

    /// The `User-Agent` header of the request.
    pub fn get_user_agent(&self) -> (r: &Vec<u8>)
        ensures
            r@ == self.user_agent@,
    {
        &self.user_agent
    }

    /// The input mapping of the request.
    pub fn get_input(&self) -> (r: &Dict)
        ensures
            r@ == self.input@,
    {
        &self.input
    }

    /// The `Referer` header of the request.
    pub fn get_referer(&self) -> (r: &Vec<u8>)
        ensures
            r@ == self.referer@,
    {
        &self.referer
    }

    /// The file mapping of the request.
    pub fn get_files(&self) -> (r: &Table<File>)
        ensures
            r@ == self.files@,
    {
        &self.files
    }

    /// The raw bytes of the request.
    pub fn get_raw(&self) -> (r: &Vec<u8>)
        ensures
            r@ == self.raw@,
    {
        &self.raw
    }
}

/// Construction of a request field by field, for examining the components
/// around the parser.
pub trait Mock: Sized {
    /// A request with empty fields.
    fn mock() -> Self;

    /// The request with its method replaced.
    fn mock_set_method(self, method: Vec<u8>) -> Self;

    /// The request with its URI replaced.
    fn mock_set_uri(self, uri: Vec<u8>) -> Self;

    /// The request with its protocol replaced.
    fn mock_set_protocol(self, protocol: Vec<u8>) -> Self;

    /// The request with its cookie mapping replaced.
    fn mock_set_cookies(self, cookies: Dict) -> Self;

    /// The request with its host replaced.
    fn mock_set_host(self, host: Vec<u8>) -> Self;

    /// The request with its user agent replaced.
    fn mock_set_user_agent(self, user_agent: Vec<u8>) -> Self;

    /// The request with its input mapping replaced.
    fn mock_set_input(self, input: Dict) -> Self;

    /// The request with its referer replaced.
    fn mock_set_referer(self, referer: Vec<u8>) -> Self;

    /// The request with its file mapping replaced.
    fn mock_set_files(self, files: Table<File>) -> Self;

    /// The request with its raw bytes replaced.
    fn mock_set_raw(self, raw: Vec<u8>) -> Self;
}

impl Mock for Request {
    fn mock() -> Self {
        Request {
            method: Vec::new(),
            uri: Vec::new(),
            protocol: Vec::new(),
            cookies: Dict::new(),
            host: Vec::new(),
            user_agent: Vec::new(),
            input: Dict::new(),
            referer: Vec::new(),
            files: Table::new(),
            raw: Vec::new(),
            middleware: Dict::new(),
            route: None,
        }
    }

    fn mock_set_method(self, method: Vec<u8>) -> Self {
        Request { method, ..self }
    }

    fn mock_set_uri(self, uri: Vec<u8>) -> Self {
        Request { uri, ..self }
    }

    fn mock_set_protocol(self, protocol: Vec<u8>) -> Self {
        Request { protocol, ..self }
    }

    fn mock_set_cookies(self, cookies: Dict) -> Self {
        Request { cookies, ..self }
    }

    fn mock_set_host(self, host: Vec<u8>) -> Self {
        Request { host, ..self }
    }

    fn mock_set_user_agent(self, user_agent: Vec<u8>) -> Self {
        Request { user_agent, ..self }
    }

    fn mock_set_input(self, input: Dict) -> Self {
        Request { input, ..self }
    }

    fn mock_set_referer(self, referer: Vec<u8>) -> Self {
        Request { referer, ..self }
    }

    fn mock_set_files(self, files: Table<File>) -> Self {
        Request { files, ..self }
    }

    fn mock_set_raw(self, raw: Vec<u8>) -> Self {
        Request { raw, ..self }
    }
}

} // verus!
