//! Multipart body parsing: one forward pass over the raw bytes, a cursor
//! advancing past each part, emitting field values and file contents.  A
//! file's content is exactly the bytes between the part's header/body
//! separator and the four bytes (`\r\n--`) preceding the next boundary
//! occurrence.

use vstd::prelude::*;
use crate::dict::entries_map;
use crate::dict::Dict;
use crate::dict::Table;
use crate::percent::spec_decode;
use crate::text::bytes_of;
use crate::text::spec_find;
use crate::text::spec_remove;
use crate::text::spec_strip;
use crate::text::spec_strip_right;
use crate::text::spec_trim;
use crate::text::spec_trim_end_crlf;

verus! {

/// A file attached to a request.
pub struct File {
    pub filename: Vec<u8>,
    pub content_type: Vec<u8>,
    pub content: Vec<u8>,
}

/// The abstraction of an attached file.
#[verifier::ext_equal]
pub struct FileV {
    pub filename: Seq<u8>,
    pub content_type: Seq<u8>,
    pub content: Seq<u8>,
}

impl View for File {
    type V = FileV;

    open spec fn view(&self) -> FileV {
        FileV { filename: self.filename@, content_type: self.content_type@, content: self.content@ }
    }
}

/// One part found by the scan: a textual field or an attached file.
#[verifier::ext_equal]
pub enum PartItem {
    Field { name: Seq<u8>, value: Seq<u8> },
    FilePart { name: Seq<u8>, file: FileV },
}

/// A multipart body scanned into file parts and field parts with
/// pairwise distinct names yields a file mapping with exactly one entry
/// per file part and an input mapping with exactly one entry per field
/// part.  Each file entry's content is, by the scan's construction, the
/// byte range between the part's header/body separator and the four bytes
/// preceding the next boundary occurrence.
pub proof fn lemma_multipart_counts(raw: Seq<u8>, boundary: Seq<u8>)
    requires
        ({
            let files = file_entries(spec_scan(raw, boundary, 0));
            forall|i: int, j: int| 0 <= i < j < files.len() ==> files[i].0 != files[j].0
        }),
        ({
            let fields = field_entries(spec_scan(raw, boundary, 0));
            forall|i: int, j: int| 0 <= i < j < fields.len() ==> fields[i].0 != fields[j].0
        }),
    ensures
        spec_multipart_files(raw, boundary).dom().finite(),
        spec_multipart_files(raw, boundary).dom().len() == file_entries(
            spec_scan(raw, boundary, 0),
        ).len(),
        spec_multipart_input(raw, boundary).dom().finite(),
        spec_multipart_input(raw, boundary).dom().len() == field_entries(
            spec_scan(raw, boundary, 0),
        ).len(),
{
    crate::dict::lemma_entries_map_count(file_entries(spec_scan(raw, boundary, 0)));
    crate::dict::lemma_entries_map_count(field_entries(spec_scan(raw, boundary, 0)));
}

/// The end of the line starting at or after `p`: the position of the next
/// `\r\n`, or the end of the buffer.
pub open spec fn line_end(raw: Seq<u8>, p: int) -> int {
    match spec_find(raw, bytes_of("\r\n"@), p) {
        Some(j) => j,
        None => raw.len() as int,
    }
}

/// The boundary token of a multipart body: the rest of the first
/// `Content-Type: multipart/form-data;` line after `; boundary=`, if that
/// line is `\r\n`-terminated and carries the attribute.
pub open spec fn spec_boundary(raw: Seq<u8>) -> Option<Seq<u8>> {
    match spec_find(raw, bytes_of("Content-Type: multipart/form-data;"@), 0) {
        None => None,
        Some(i) => {
            if line_end(raw, i) >= raw.len() {
                None
            } else {
                let line = raw.subrange(i, line_end(raw, i));
                match spec_find(line, bytes_of("; boundary="@), 0) {
                    None => None,
                    Some(b) => Some(
                        line.subrange(b + bytes_of("; boundary="@).len(), line.len() as int),
                    ),
                }
            }
        },
    }
}

/// The name a disposition line declares, as the map key: the text before
/// `filename=` (or the whole rest of the line), whitespace-trimmed, one
/// trailing `;` and one pair of surrounding quotes removed, then
/// percent-decoded.
pub open spec fn part_name(after_name: Seq<u8>, upto: int) -> Seq<u8> {
    spec_decode(spec_strip(spec_strip_right(spec_trim(after_name.subrange(0, upto)), 59), 34))
}

/// The parts of `raw` from cursor `c` on: at each `Content-Disposition:
/// form-data; name=` line, a file when the line carries a non-empty
/// `filename=`, a field when it carries none, nothing when the filename is
/// the empty string; files consume the scan up to the next boundary
/// occurrence, fields up to the end of their value line.
pub open spec fn spec_scan(raw: Seq<u8>, boundary: Seq<u8>, c: int) -> Seq<PartItem>
    decreases raw.len() - c, 1nat,
{
    let disp = bytes_of("Content-Disposition: form-data; name="@);
    match spec_find(raw, disp, c) {
        None => Seq::empty(),
        Some(i) => {
            let le = line_end(raw, i);
            if le >= raw.len() || le < i + disp.len() {
                Seq::empty()
            } else {
                let line = raw.subrange(i, le);
                let after_name = raw.subrange(i + disp.len(), le);
                let clean = spec_trim_end_crlf(
                    spec_remove(spec_remove(after_name, 32), 34),
                );
                if spec_find(line, bytes_of("filename="@), 0) is Some && spec_find(
                    line,
                    bytes_of("filename=\"\""@),
                    0,
                ) is None {
                    scan_file(raw, boundary, c, i, le, after_name)
                } else if spec_find(clean, bytes_of("filename="@), 0) is Some {
                    // an empty or unreadable filename: the part is skipped
                    if c < le + 2 && le + 2 <= raw.len() {
                        spec_scan(raw, boundary, le + 2)
                    } else {
                        Seq::empty()
                    }
                } else {
                    scan_field(raw, boundary, c, i, le, clean)
                }
            }
        },
    }
}

/// The scan step for a file part.
pub open spec fn scan_file(
    raw: Seq<u8>,
    boundary: Seq<u8>,
    c: int,
    i: int,
    le: int,
    after_name: Seq<u8>,
) -> Seq<PartItem>
    decreases raw.len() - c, 0nat,
{
    match spec_find(after_name, bytes_of("filename="@), 0) {
        None => Seq::empty(),
        Some(fpos) => match spec_find(raw, bytes_of("\r\n\r\n"@), i) {
            None => Seq::empty(),
            Some(q) => match spec_find(raw, boundary, q + 4) {
                None => Seq::empty(),
                Some(p) => {
                    let cs = q + 4;
                    let ce = if p - 4 >= cs {
                        p - 4
                    } else {
                        cs
                    };
                    let l2e = line_end(raw, le + 2);
                    let ctype_line = raw.subrange(le + 2, l2e);
                    let ctype_stripped = if ctype_line.len() >= bytes_of("Content-Type:"@).len()
                        && ctype_line.subrange(0, bytes_of("Content-Type:"@).len() as int)
                        == bytes_of("Content-Type:"@) {
                        ctype_line.subrange(
                            bytes_of("Content-Type:"@).len() as int,
                            ctype_line.len() as int,
                        )
                    } else {
                        ctype_line
                    };
                    let item = PartItem::FilePart {
                        name: part_name(after_name, fpos),
                        file: FileV {
                            filename: spec_remove(
                                spec_remove(
                                    after_name.subrange(
                                        fpos + bytes_of("filename="@).len(),
                                        after_name.len() as int,
                                    ),
                                    32,
                                ),
                                34,
                            ),
                            content_type: spec_trim_end_crlf(
                                spec_remove(spec_remove(ctype_stripped, 32), 34),
                            ),
                            content: raw.subrange(cs, ce),
                        },
                    };
                    let next = p + boundary.len();
                    if c < next && next <= raw.len() && le + 2 <= l2e {
                        seq![item] + spec_scan(raw, boundary, next)
                    } else {
                        seq![item]
                    }
                },
            },
        },
    }
}

/// The scan step for a field part: the value is the line after the blank
/// line that follows the disposition line.
pub open spec fn scan_field(
    raw: Seq<u8>,
    boundary: Seq<u8>,
    c: int,
    i: int,
    le: int,
    clean: Seq<u8>,
) -> Seq<PartItem>
    decreases raw.len() - c, 0nat,
{
    match spec_find(raw, bytes_of("\r\n"@), le + 1) {
        None => Seq::empty(),
        Some(m1) => {
            let m2 = line_end(raw, m1 + 2);
            let value = raw.subrange(m1 + 2, m2);
            let item = PartItem::Field { name: spec_decode(clean), value: spec_decode(value) };
            if c < m2 && m2 <= raw.len() && m1 + 2 <= m2 {
                seq![item] + spec_scan(raw, boundary, m2)
            } else {
                seq![item]
            }
        },
    }
}

/// The field entries among the scanned parts, in order.
pub open spec fn field_entries(items: Seq<PartItem>) -> Seq<(Seq<u8>, Seq<u8>)>
    decreases items.len(),
{
    if items.len() == 0 {
        Seq::empty()
    } else {
        field_entries(items.drop_last()) + (match items.last() {
            PartItem::Field { name, value } => seq![(name, value)],
            PartItem::FilePart { .. } => Seq::empty(),
        })
    }
}

/// The file entries among the scanned parts, in order.
pub open spec fn file_entries(items: Seq<PartItem>) -> Seq<(Seq<u8>, FileV)>
    decreases items.len(),
{
    if items.len() == 0 {
        Seq::empty()
    } else {
        file_entries(items.drop_last()) + (match items.last() {
            PartItem::Field { .. } => Seq::empty(),
            PartItem::FilePart { name, file } => seq![(name, file)],
        })
    }
}

/// The input mapping of a multipart body.
pub open spec fn spec_multipart_input(raw: Seq<u8>, boundary: Seq<u8>) -> Map<Seq<u8>, Seq<u8>> {
    entries_map(field_entries(spec_scan(raw, boundary, 0)))
}

/// The file mapping of a multipart body.
pub open spec fn spec_multipart_files(raw: Seq<u8>, boundary: Seq<u8>) -> Map<Seq<u8>, FileV> {
    entries_map(file_entries(spec_scan(raw, boundary, 0)))
}

/// The line and header separators are two and four bytes long.
pub(crate) proof fn lemma_separator_lens()
    ensures
        bytes_of("\r\n"@).len() == 2,
        bytes_of("\r\n\r\n"@).len() == 4,
{
    reveal_strlit("\r\n");
    reveal_strlit("\r\n\r\n");
    assert(vstd::utf8::is_ascii_chars("\r\n"@));
    assert(vstd::utf8::is_ascii_chars("\r\n\r\n"@));
    crate::text::lemma_ascii_bytes_len("\r\n"@);
    crate::text::lemma_ascii_bytes_len("\r\n\r\n"@);
}

/// The end of the line starting at or after `p`.
pub(crate) fn line_end_exec(raw: &[u8], p: usize) -> (r: usize)
    requires
        p <= raw@.len(),
    ensures
        r == line_end(raw@, p as int),
        p <= r <= raw@.len(),
        r < raw@.len() ==> r + 2 <= raw@.len(),
{
    proof {
        lemma_separator_lens();
    }
    let crlf = crate::text::str_bytes("\r\n");
    match crate::text::find(raw, crlf.as_slice(), p) {
        Some(j) => {
            proof {
                crate::text::lemma_find_some(raw@, crlf@, p as int, j as int);
            }
            j
        },
        None => raw.len(),
    }
}

/// The boundary token of a multipart body, if the `Content-Type:
/// multipart/form-data;` line is present, terminated and carries one.
pub fn extract_boundary(raw: &[u8]) -> (r: Option<Vec<u8>>)
    ensures
        match r {
            Some(b) => spec_boundary(raw@) == Some(b@),
            None => spec_boundary(raw@) is None,
        },
{
    let marker = crate::text::str_bytes("Content-Type: multipart/form-data;");
    let bmark = crate::text::str_bytes("; boundary=");
    match crate::text::find(raw, marker.as_slice(), 0) {
        None => None,
        Some(i) => {
            proof {
                crate::text::lemma_find_some(raw@, marker@, 0, i as int);
            }
            let le = line_end_exec(raw, i);
            if le >= raw.len() {
                return None;
            }
            let line = crate::text::subvec(raw, i, le);
            match crate::text::find(line.as_slice(), bmark.as_slice(), 0) {
                None => None,
                Some(b) => {
                    proof {
                        crate::text::lemma_find_some(line@, bmark@, 0, b as int);
                    }
                    Some(crate::text::subvec(line.as_slice(), b + bmark.len(), line.len()))
                },
            }
        },
    }
}

/// Scans a multipart body once, cursor forward, and returns the input and
/// file mappings its parts describe.
#[verifier::rlimit(60)]
pub fn parse_parts(raw: &[u8], boundary: &[u8]) -> (r: (Dict, Table<File>))
    ensures
        r.0.seq_of() == field_entries(spec_scan(raw@, boundary@, 0)),
        r.1.seq_of() == file_entries(spec_scan(raw@, boundary@, 0)),
    decreases
{
    let disp = crate::text::str_bytes("Content-Disposition: form-data; name=");
    let crlf = crate::text::str_bytes("\r\n");
    let sep = crate::text::str_bytes("\r\n\r\n");
    let fname = crate::text::str_bytes("filename=");
    let fname_empty = crate::text::str_bytes("filename=\"\"");
    let ctmark = crate::text::str_bytes("Content-Type:");
    let mut fields = Dict::new();
    let mut files: Table<File> = Table::new();
    let mut c: usize = 0;
    let ghost all = spec_scan(raw@, boundary@, 0);
    let ghost mut done: Seq<PartItem> = Seq::empty();
    proof {
        lemma_separator_lens();
        assert(done + spec_scan(raw@, boundary@, 0) =~= all);
    }
    loop
        invariant
            disp@ == bytes_of("Content-Disposition: form-data; name="@),
            crlf@ == bytes_of("\r\n"@),
            sep@ == bytes_of("\r\n\r\n"@),
            fname@ == bytes_of("filename="@),
            fname_empty@ == bytes_of("filename=\"\""@),
            ctmark@ == bytes_of("Content-Type:"@),
            crlf@.len() == 2,
            sep@.len() == 4,
            0 <= c <= raw@.len(),
            all == spec_scan(raw@, boundary@, 0),
            all == done + spec_scan(raw@, boundary@, c as int),
            fields.seq_of() == field_entries(done),
            files.seq_of() == file_entries(done),
        decreases raw@.len() - c,
    {
        let ghost tail = spec_scan(raw@, boundary@, c as int);
        match crate::text::find(raw, disp.as_slice(), c) {
            None => {
                proof {
                    assert(tail =~= Seq::<PartItem>::empty());
                    assert(all =~= done);
                }
                return (fields, files);
            },
            Some(i) => {
                proof {
                    crate::text::lemma_find_some(raw@, disp@, c as int, i as int);
                }
                let le = line_end_exec(raw, i);
                if le >= raw.len() || le < i + disp.len() {
                    proof {
                        assert(tail =~= Seq::<PartItem>::empty());
                        assert(all =~= done);
                    }
                    return (fields, files);
                }
                let line = crate::text::subvec(raw, i, le);
                let after_name = crate::text::subvec(raw, i + disp.len(), le);
                let cleaned0 = crate::text::remove_byte(after_name.as_slice(), 32);
                let cleaned1 = crate::text::remove_byte(cleaned0.as_slice(), 34);
                let clean = crate::text::trim_end_crlf(cleaned1.as_slice());
                let has_filename = crate::text::contains(line.as_slice(), fname.as_slice());
                let has_empty_filename = crate::text::contains(
                    line.as_slice(),
                    fname_empty.as_slice(),
                );
                if has_filename && !has_empty_filename {
                    let fpos_opt = crate::text::find(after_name.as_slice(), fname.as_slice(), 0);
                    if fpos_opt.is_none() {
                        proof {
                            assert(tail == scan_file(
                                raw@,
                                boundary@,
                                c as int,
                                i as int,
                                le as int,
                                after_name@,
                            ));
                            assert(tail =~= Seq::<PartItem>::empty());
                            assert(all =~= done);
                        }
                        return (fields, files);
                    }
                    let fpos = fpos_opt.unwrap();
                    proof {
                        crate::text::lemma_find_some(after_name@, fname@, 0, fpos as int);
                    }
                    let q_opt = crate::text::find(raw, sep.as_slice(), i);
                    if q_opt.is_none() {
                        proof {
                            assert(tail == scan_file(
                                raw@,
                                boundary@,
                                c as int,
                                i as int,
                                le as int,
                                after_name@,
                            ));
                            assert(tail =~= Seq::<PartItem>::empty());
                            assert(all =~= done);
                        }
                        return (fields, files);
                    }
                    let q = q_opt.unwrap();
                    proof {
                        crate::text::lemma_find_some(raw@, sep@, i as int, q as int);
                    }
                    let p_opt = crate::text::find(raw, boundary, q + 4);
                    if p_opt.is_none() {
                        proof {
                            assert(tail == scan_file(
                                raw@,
                                boundary@,
                                c as int,
                                i as int,
                                le as int,
                                after_name@,
                            ));
                            assert(tail =~= Seq::<PartItem>::empty());
                            assert(all =~= done);
                        }
                        return (fields, files);
                    }
                    let p = p_opt.unwrap();
                    proof {
                        crate::text::lemma_find_some(raw@, boundary@, q + 4, p as int);
                    }
                    let cs = q + 4;
                    let ce = if p >= 4 && p - 4 >= cs {
                        p - 4
                    } else {
                        cs
                    };
                    let content = crate::text::subvec(raw, cs, ce);
                    let l2e = line_end_exec(raw, le + 2);
                    let ctype_line = crate::text::subvec(raw, le + 2, l2e);
                    let ghost g_stripped = if ctype_line@.len() >= bytes_of("Content-Type:"@).len()
                        && ctype_line@.subrange(0, bytes_of("Content-Type:"@).len() as int)
                        == bytes_of("Content-Type:"@) {
                        ctype_line@.subrange(
                            bytes_of("Content-Type:"@).len() as int,
                            ctype_line@.len() as int,
                        )
                    } else {
                        ctype_line@
                    };
                    let ctype_stripped = if crate::text::starts_with(
                        ctype_line.as_slice(),
                        ctmark.as_slice(),
                    ) {
                        let v = crate::text::subvec(
                            ctype_line.as_slice(),
                            ctmark.len(),
                            ctype_line.len(),
                        );
                        proof {
                            assert(v@ =~= g_stripped);
                        }
                        v
                    } else {
                        let v = crate::text::subvec(ctype_line.as_slice(), 0, ctype_line.len());
                        proof {
                            assert(v@ =~= ctype_line@);
                            assert(v@ =~= g_stripped);
                        }
                        v
                    };
                    let ct0 = crate::text::remove_byte(ctype_stripped.as_slice(), 32);
                    let ct1 = crate::text::remove_byte(ct0.as_slice(), 34);
                    let content_type = crate::text::trim_end_crlf(ct1.as_slice());
                    let name_raw = crate::text::subvec(after_name.as_slice(), 0, fpos);
                    let name_trimmed = crate::text::trim(name_raw.as_slice());
                    let name_nosemi = crate::text::strip_right(name_trimmed.as_slice(), 59);
                    let name_noquote = crate::text::strip(name_nosemi.as_slice(), 34);
                    let name = crate::percent::decode(name_noquote.as_slice());
                    let fn_raw = crate::text::subvec(
                        after_name.as_slice(),
                        fpos + fname.len(),
                        after_name.len(),
                    );
                    let fn0 = crate::text::remove_byte(fn_raw.as_slice(), 32);
                    let filename = crate::text::remove_byte(fn0.as_slice(), 34);
                    let ghost item = PartItem::FilePart {
                        name: name@,
                        file: FileV { filename: filename@, content_type: content_type@, content: content@ },
                    };
                    files.insert(name, File { filename, content_type, content });
                    proof {
                        assert(tail == scan_file(
                            raw@,
                            boundary@,
                            c as int,
                            i as int,
                            le as int,
                            after_name@,
                        ));
                        assert(name@ == part_name(after_name@, fpos as int));
                        assert(filename@ == spec_remove(
                            spec_remove(
                                after_name@.subrange(
                                    fpos + bytes_of("filename="@).len(),
                                    after_name@.len() as int,
                                ),
                                32,
                            ),
                            34,
                        ));
                        assert(content_type@ == spec_trim_end_crlf(
                            spec_remove(spec_remove(g_stripped, 32), 34),
                        ));
                        assert(content@ == raw@.subrange(q + 4, if p - 4 >= q + 4 {
                            p - 4
                        } else {
                            q + 4
                        }));
                        assert(tail =~~= seq![item] + spec_scan(
                            raw@,
                            boundary@,
                            p + boundary@.len(),
                        ));
                        let done0 = done;
                        done = done.push(item);
                        assert(done.drop_last() =~= done0);
                        assert(field_entries(done) =~= field_entries(done0));
                        assert(file_entries(done) =~= files.seq_of());
                        assert(all =~= done + spec_scan(raw@, boundary@, p + boundary@.len()));
                    }
                    c = p + boundary.len();
                } else if crate::text::contains(clean.as_slice(), fname.as_slice()) {
                    proof {
                        assert(tail == spec_scan(raw@, boundary@, le + 2));
                    }
                    c = le + 2;
                } else {
                    let m1_opt = crate::text::find(raw, crlf.as_slice(), le + 1);
                    if m1_opt.is_none() {
                        proof {
                            assert(tail == scan_field(
                                raw@,
                                boundary@,
                                c as int,
                                i as int,
                                le as int,
                                clean@,
                            ));
                            assert(tail =~= Seq::<PartItem>::empty());
                            assert(all =~= done);
                        }
                        return (fields, files);
                    }
                    let m1 = m1_opt.unwrap();
                    proof {
                        crate::text::lemma_find_some(raw@, crlf@, le + 1, m1 as int);
                    }
                    let m2 = line_end_exec(raw, m1 + 2);
                    let value_raw = crate::text::subvec(raw, m1 + 2, m2);
                    let name = crate::percent::decode(clean.as_slice());
                    let value = crate::percent::decode(value_raw.as_slice());
                    let ghost item = PartItem::Field { name: name@, value: value@ };
                    fields.insert(name, value);
                    proof {
                        assert(tail == scan_field(
                            raw@,
                            boundary@,
                            c as int,
                            i as int,
                            le as int,
                            clean@,
                        ));
                        assert(tail =~~= seq![item] + spec_scan(raw@, boundary@, m2 as int));
                        let done0 = done;
                        done = done.push(item);
                        assert(done.drop_last() =~= done0);
                        assert(file_entries(done) =~= file_entries(done0));
                        assert(field_entries(done) =~= fields.seq_of());
                        assert(all =~= done + spec_scan(raw@, boundary@, m2 as int));
                    }
                    c = m2;
                }
            },
        }
    }
}

} // verus!
