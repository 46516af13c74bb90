//! The asset handler: deciding whether a request names a static file,
//! the path and content type of one, and the byte stream that serves it.

use vstd::prelude::*;
use crate::response::spec_response_bytes;
use crate::response::spec_status_line;
use crate::response::Response;
use crate::response::ResponseV;
use crate::settings::as_str_spec;
use crate::settings::Settings;
use crate::settings::ValueV;
use crate::text::bytes_of;
use crate::text::spec_find;
use crate::text::spec_split;
use crate::text::spec_starts_with;
use crate::text::spec_strip;
use crate::text::spec_strip_left;
use crate::text::spec_trim;

verus! {

/// The URI prefix a static folder entry guards: the entry trimmed, one
/// slash stripped from each side, between two slashes.
pub open spec fn spec_folder_prefix(folder: Seq<u8>) -> Seq<u8> {
    seq![47u8] + spec_strip(spec_trim(folder), 47) + seq![47u8]
}

/// Whether a URI names a static file: the settings parameter
/// `static.folders` is a string, and the URI starts with one of its
/// comma-separated folders, each trimmed and slash-stripped, as a
/// `/folder/` prefix.
pub open spec fn spec_is_static(uri: Seq<u8>, m: Map<Seq<char>, ValueV>) -> bool {
    let key = "static.folders"@;
    &&& m.contains_key(key)
    &&& as_str_spec(m[key]) is Some
    &&& ({
        let folders = spec_split(spec_trim(bytes_of(as_str_spec(m[key]).unwrap())), seq![44u8]);
        exists|k: int|
            0 <= k < folders.len() && spec_starts_with(uri, spec_folder_prefix(folders[k]))
    })
}

/// Checks whether the request's URI names a static file.
pub fn is_static_file(uri: &[u8], settings: &Settings) -> (r: bool)
    ensures
        r == spec_is_static(uri@, settings@),
{
    match settings.get_string("static.folders") {
        Err(_) => false,
        Ok(folders_string) => {
            let folders_bytes = folders_string.as_str().as_bytes_vec();
            let trimmed = crate::text::trim(folders_bytes.as_slice());
            let comma = single_byte(44);
            let folders = crate::text::split(trimmed.as_slice(), comma.as_slice());
            let ghost gfolders = folders@.map_values(|p: Vec<u8>| p@);
            let mut k: usize = 0;
            while k < folders.len()
                invariant
                    settings@.contains_key("static.folders"@),
                    as_str_spec(settings@["static.folders"@]) == Some(folders_string@),
                    trimmed@ == spec_trim(bytes_of(folders_string@)),
                    gfolders == spec_split(trimmed@, seq![44u8]),
                    gfolders == folders@.map_values(|p: Vec<u8>| p@),
                    0 <= k <= folders@.len(),
                    forall|j: int|
                        0 <= j < k ==> !spec_starts_with(uri@, spec_folder_prefix(gfolders[j])),
                decreases folders@.len() - k,
            {
                let folder_trimmed = crate::text::trim(folders[k].as_slice());
                let clean = crate::text::strip(folder_trimmed.as_slice(), 47);
                let mut prefix = single_byte(47);
                prefix.append(&mut clean.clone());
                prefix.push(47);
                proof {
                    assert(prefix@ =~= spec_folder_prefix(gfolders[k as int]));
                }
                if crate::text::starts_with(uri, prefix.as_slice()) {
                    proof {
                        let key = "static.folders"@;
                        let gf = spec_split(
                            spec_trim(bytes_of(as_str_spec(settings@[key]).unwrap())),
                            seq![44u8],
                        );
                        assert(gfolders == gf);
                        assert(spec_starts_with(uri@, spec_folder_prefix(gf[k as int])));
                    }
                    return true;
                }
                k = k + 1;
            }
            false
        },
    }
}

/// A vector of one byte.
fn single_byte(b: u8) -> (r: Vec<u8>)
    ensures
        r@ == seq![b],
{
    let mut v: Vec<u8> = Vec::new();
    v.push(b);
    proof {
        assert(v@ =~= seq![b]);
    }
    v
}

/// The path of the static file a URI names: the URI up to a `?`, one
/// leading slash stripped.
pub open spec fn spec_clean_static_file(uri: Seq<u8>) -> Seq<u8> {
    match spec_find(uri, seq![63u8], 0) {
        Some(pos) => spec_strip_left(uri.subrange(0, pos), 47),
        None => spec_strip_left(uri, 47),
    }
}

/// The path of the static file a URI names.
pub fn get_clean_static_file(uri: &[u8]) -> (r: Vec<u8>)
    ensures
        r@ == spec_clean_static_file(uri@),
{
    let qmark = single_byte(63);
    match crate::text::find(uri, qmark.as_slice(), 0) {
        Some(pos) => {
            proof {
                crate::text::lemma_find_some(uri@, qmark@, 0, pos as int);
            }
            crate::text::strip_left(crate::text::subvec(uri, 0, pos).as_slice(), 47)
        },
        None => crate::text::strip_left(uri, 47),
    }
}

/// The content type of a static file, decided by the text after the last
/// `.` of its path.
pub open spec fn spec_content_type(uri: Seq<u8>) -> Seq<char> {
    let ext = spec_split(uri, seq![46u8]).last();
    if ext == bytes_of("aac"@) {
        "audio/aac"@
    } else if ext == bytes_of("avi"@) {
        "video/x-msvideo"@
    } else if ext == bytes_of("bmp"@) {
        "image/bmp"@
    } else if ext == bytes_of("css"@) {
        "text/css"@
    } else if ext == bytes_of("csv"@) {
        "text/csv"@
    } else if ext == bytes_of("gif"@) {
        "image/gif"@
    } else if ext == bytes_of("html"@) {
        "text/html"@
    } else if ext == bytes_of("ico"@) {
        "image/x-icon"@
    } else if ext == bytes_of("jpg"@) {
        "image/jpg"@
    } else if ext == bytes_of("jpeg"@) {
        "image/jpeg"@
    } else if ext == bytes_of("js"@) {
        "text/javascript"@
    } else if ext == bytes_of("json"@) {
        "application/json"@
    } else if ext == bytes_of("mp3"@) {
        "audio/mpeg"@
    } else if ext == bytes_of("mp4"@) {
        "video/mp4"@
    } else if ext == bytes_of("mpeg"@) {
        "video/mpeg"@
    } else if ext == bytes_of("otf"@) {
        "font/otf"@
    } else if ext == bytes_of("pdf"@) {
        "application/pdf"@
    } else if ext == bytes_of("png"@) {
        "image/png"@
    } else if ext == bytes_of("svg"@) {
        "image/svg+xml"@
    } else if ext == bytes_of("ttf"@) {
        "font/ttf"@
    } else if ext == bytes_of("txt"@) {
        "text/plain"@
    } else if ext == bytes_of("wav"@) {
        "audio/wav"@
    } else if ext == bytes_of("weba"@) {
        "audio/webm"@
    } else if ext == bytes_of("webm"@) {
        "video/webm"@
    } else if ext == bytes_of("webp"@) {
        "image/webp"@
    } else if ext == bytes_of("woff"@) {
        "font/woff"@
    } else if ext == bytes_of("woff2"@) {
        "font/woff2"@
    } else if ext == bytes_of("xhtml"@) {
        "application/xhtml+xml"@
    } else if ext == bytes_of("xls"@) {
        "application/vnd.ms-excel"@
    } else if ext == bytes_of("xlsx"@) {
        "application/vnd.openxmlformats-officedocument.spreadsheetml.sheet"@
    } else if ext == bytes_of("xml"@) {
        "application/xml"@
    } else {
        "application/octet-stream"@
    }
}

/// Compares the last `.`-separated chunk of a path against an extension.
fn eq(ext: &Vec<u8>, name: &str) -> (r: bool)
    ensures
        r == (ext@ == bytes_of(name@)),
{
    let n = crate::text::str_bytes(name);
    crate::text::eq_bytes(ext.as_slice(), n.as_slice())
}

/// The content type of a static file.
pub fn get_content_type(uri: &[u8]) -> (r: &'static str)
    ensures
        r@ == spec_content_type(uri@),
{
    let dot = single_byte(46);
    let chunks = crate::text::split(uri, dot.as_slice());
    let ext = &chunks[chunks.len() - 1];
    proof {
        assert(ext@ == spec_split(uri@, seq![46u8]).last());
    }
    if eq(ext, "aac") {
        "audio/aac"
    } else if eq(ext, "avi") {
        "video/x-msvideo"
    } else if eq(ext, "bmp") {
        "image/bmp"
    } else if eq(ext, "css") {
        "text/css"
    } else if eq(ext, "csv") {
        "text/csv"
    } else if eq(ext, "gif") {
        "image/gif"
    } else if eq(ext, "html") {
        "text/html"
    } else if eq(ext, "ico") {
        "image/x-icon"
    } else if eq(ext, "jpg") {
        "image/jpg"
    } else if eq(ext, "jpeg") {
        "image/jpeg"
    } else if eq(ext, "js") {
        "text/javascript"
    } else if eq(ext, "json") {
        "application/json"
    } else if eq(ext, "mp3") {
        "audio/mpeg"
    } else if eq(ext, "mp4") {
        "video/mp4"
    } else if eq(ext, "mpeg") {
        "video/mpeg"
    } else if eq(ext, "otf") {
        "font/otf"
    } else if eq(ext, "pdf") {
        "application/pdf"
    } else if eq(ext, "png") {
        "image/png"
    } else if eq(ext, "svg") {
        "image/svg+xml"
    } else if eq(ext, "ttf") {
        "font/ttf"
    } else if eq(ext, "txt") {
        "text/plain"
    } else if eq(ext, "wav") {
        "audio/wav"
    } else if eq(ext, "weba") {
        "audio/webm"
    } else if eq(ext, "webm") {
        "video/webm"
    } else if eq(ext, "webp") {
        "image/webp"
    } else if eq(ext, "woff") {
        "font/woff"
    } else if eq(ext, "woff2") {
        "font/woff2"
    } else if eq(ext, "xhtml") {
        "application/xhtml+xml"
    } else if eq(ext, "xls") {
        "application/vnd.ms-excel"
    } else if eq(ext, "xlsx") {
        "application/vnd.openxmlformats-officedocument.spreadsheetml.sheet"
    } else if eq(ext, "xml") {
        "application/xml"
    } else {
        "application/octet-stream"
    }
}

/// The byte stream that serves a static file: a status 200 response with
/// the file's content type, a blank line, then the file's bytes.
pub fn serve_static_bytes(content_type: &str, contents: &[u8]) -> (r: Vec<u8>)
    ensures
        r@ == spec_response_bytes(
            ResponseV {
                status: spec_status_line(200),
                content_type: "\r\nContent-Type: "@ + content_type@ + ";"@,
                location: Seq::empty(),
                cookies: Seq::empty(),
                content: Seq::empty(),
                content_length: Seq::empty(),
            },
        ) + bytes_of("\n\n"@) + contents@,
{
    let response = Response::new().set_status(200).set_content_type(content_type);
    proof {
        assert(response@ =~= (ResponseV {
            status: spec_status_line(200),
            content_type: "\r\nContent-Type: "@ + content_type@ + ";"@,
            location: Seq::empty(),
            cookies: Seq::empty(),
            content: Seq::empty(),
            content_length: Seq::empty(),
        }));
    }
    let mut bytes = response.create();
    let mut blank = crate::text::str_bytes("\n\n");
    let mut body = crate::text::subvec(contents, 0, contents.len());
    proof {
        assert(body@ =~= contents@);
    }
    bytes.append(&mut blank);
    bytes.append(&mut body);
    bytes
}

} // verus!
