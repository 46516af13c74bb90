//! Byte-sequence scanning and trimming primitives used by the wire-format
//! parser and serializer.

use vstd::prelude::*;

verus! {

/// The UTF-8 bytes of a character sequence; the form every byte-level
/// contract uses to speak about text markers such as `"Cookie:"`.
pub open spec fn bytes_of(s: Seq<char>) -> Seq<u8> {
    vstd::utf8::encode_utf8(s)
}

/// For ASCII text the byte form has one byte per character.
pub proof fn lemma_ascii_bytes_len(s: Seq<char>)
    requires
        vstd::utf8::is_ascii_chars(s),
    ensures
        bytes_of(s).len() == s.len(),
        forall|i: int| 0 <= i < s.len() ==> bytes_of(s)[i] == s[i] as u8,
{
    vstd::utf8::is_ascii_chars_encode_utf8(s);
}

/// True when `n` occurs in `h` starting exactly at index `i`.
pub open spec fn matches_at(h: Seq<u8>, n: Seq<u8>, i: int) -> bool {
    0 <= i && i + n.len() <= h.len() && h.subrange(i, i + n.len()) == n
}

/// The least index at or after `from` where `n` occurs in `h`.
pub open spec fn spec_find(h: Seq<u8>, n: Seq<u8>, from: int) -> Option<int>
    recommends
        0 <= from,
    decreases h.len() - from + 1,
{
    if from < 0 || from + n.len() > h.len() {
        None
    } else if matches_at(h, n, from) {
        Some(from)
    } else {
        spec_find(h, n, from + 1)
    }
}

/// A found index is a true, minimal match at or after the starting point.
pub proof fn lemma_find_some(h: Seq<u8>, n: Seq<u8>, from: int, i: int)
    requires
        spec_find(h, n, from) == Some(i),
    ensures
        from <= i,
        matches_at(h, n, i),
        forall|j: int| from <= j < i ==> !matches_at(h, n, j),
    decreases h.len() - from + 1,
{
    if !(from < 0 || from + n.len() > h.len()) && !matches_at(h, n, from) {
        lemma_find_some(h, n, from + 1, i);
    }
}

/// The search result does not change while stepping over non-matching
/// positions.
proof fn lemma_find_step(h: Seq<u8>, n: Seq<u8>, from: int)
    requires
        0 <= from,
        from + n.len() <= h.len(),
        !matches_at(h, n, from),
    ensures
        spec_find(h, n, from) == spec_find(h, n, from + 1),
{
}

/// The UTF-8 bytes of a string, as an owned vector.
pub fn str_bytes(s: &str) -> (r: Vec<u8>)
    ensures
        r@ == bytes_of(s@),
{
    s.as_bytes_vec()
}

/// Compares `n` against the bytes of `h` at position `i`.
pub fn is_match_at(h: &[u8], n: &[u8], i: usize) -> (r: bool)
    requires
        i + n@.len() <= h@.len(),
    ensures
        r == matches_at(h@, n@, i as int),
{
    let hlen = h.len();
    let mut k: usize = 0;
    while k < n.len()
        invariant
            h@.len() == hlen,
            i + n@.len() <= h@.len(),
            0 <= k <= n@.len(),
            forall|m: int| 0 <= m < k ==> h@[i + m] == n@[m],
        decreases n@.len() - k,
    {
        if h[i + k] != n[k] {
            assert(h@.subrange(i as int, i + n@.len())[k as int] != n@[k as int]);
            return false;
        }
        k = k + 1;
    }
    assert(h@.subrange(i as int, i + n@.len()) =~= n@);
    true
}

/// Finds the first occurrence of `n` in `h` at or after `from`.
pub fn find(h: &[u8], n: &[u8], from: usize) -> (r: Option<usize>)
    ensures
        match r {
            Some(i) => from <= i && spec_find(h@, n@, from as int) == Some(i as int),
            None => spec_find(h@, n@, from as int) is None,
        },
{
    if n.len() > h.len() {
        return None;
    }
    if from > h.len() - n.len() {
        return None;
    }
    if n.len() == 0 {
        proof {
            assert(h@.subrange(from as int, from as int) =~= n@);
        }
        return Some(from);
    }
    let hlen = h.len();
    let mut i: usize = from;
    while i <= h.len() - n.len()
        invariant
            h@.len() == hlen,
            1 <= n@.len() <= h@.len(),
            from <= i,
            i <= h@.len() - n@.len() + 1,
            spec_find(h@, n@, from as int) == spec_find(h@, n@, i as int),
        decreases h@.len() - n@.len() + 1 - i,
    {
        if is_match_at(h, n, i) {
            return Some(i);
        }
        proof {
            lemma_find_step(h@, n@, i as int);
        }
        i = i + 1;
    }
    None
}

/// True when `n` occurs somewhere in `h`.
pub fn contains(h: &[u8], n: &[u8]) -> (r: bool)
    ensures
        r == (spec_find(h@, n@, 0) is Some),
{
    find(h, n, 0).is_some()
}

/// An owned copy of the byte range `[i, j)` of `h`.
pub fn subvec(h: &[u8], i: usize, j: usize) -> (r: Vec<u8>)
    requires
        i <= j <= h@.len(),
    ensures
        r@ == h@.subrange(i as int, j as int),
{
    vstd::slice::slice_to_vec(vstd::slice::slice_subrange(h, i, j))
}

/// ASCII whitespace, the class `trim` removes at either end.
pub open spec fn is_ws(b: u8) -> bool {
    b == 32 || b == 9 || b == 10 || b == 13
}

/// A carriage return or line feed, the class `trim_end_crlf` removes.
pub open spec fn is_crlf_byte(b: u8) -> bool {
    b == 13 || b == 10
}

/// `s` without its leading whitespace.
pub open spec fn spec_trim_start(s: Seq<u8>) -> Seq<u8>
    decreases s.len(),
{
    if s.len() > 0 && is_ws(s[0]) {
        spec_trim_start(s.skip(1))
    } else {
        s
    }
}

/// `s` without its trailing whitespace.
pub open spec fn spec_trim_end(s: Seq<u8>) -> Seq<u8>
    decreases s.len(),
{
    if s.len() > 0 && is_ws(s.last()) {
        spec_trim_end(s.drop_last())
    } else {
        s
    }
}

/// `s` without leading and trailing whitespace.
pub open spec fn spec_trim(s: Seq<u8>) -> Seq<u8> {
    spec_trim_end(spec_trim_start(s))
}

/// `s` without its trailing carriage returns and line feeds.
pub open spec fn spec_trim_end_crlf(s: Seq<u8>) -> Seq<u8>
    decreases s.len(),
{
    if s.len() > 0 && is_crlf_byte(s.last()) {
        spec_trim_end_crlf(s.drop_last())
    } else {
        s
    }
}

proof fn lemma_trim_start_range(s: Seq<u8>, i: int)
    requires
        0 <= i <= s.len(),
        forall|k: int| 0 <= k < i ==> is_ws(s[k]),
        i < s.len() ==> !is_ws(s[i]),
    ensures
        spec_trim_start(s) == s.subrange(i, s.len() as int),
    decreases i,
{
    if i == 0 {
        if s.len() > 0 && is_ws(s[0]) {
            assert(false);
        }
        assert(s.subrange(0, s.len() as int) =~= s);
    } else {
        let t = s.skip(1);
        lemma_trim_start_range(t, i - 1);
        assert(t.subrange(i - 1, t.len() as int) =~= s.subrange(i, s.len() as int));
    }
}

proof fn lemma_trim_end_range(s: Seq<u8>, j: int)
    requires
        0 <= j <= s.len(),
        forall|k: int| j <= k < s.len() ==> is_ws(s[k]),
        j > 0 ==> !is_ws(s[j - 1]),
    ensures
        spec_trim_end(s) == s.subrange(0, j),
    decreases s.len() - j,
{
    if j == s.len() {
        if s.len() > 0 && is_ws(s.last()) {
            assert(false);
        }
        assert(s.subrange(0, s.len() as int) =~= s);
    } else {
        let t = s.drop_last();
        assert(is_ws(s.last()));
        lemma_trim_end_range(t, j);
        assert(t.subrange(0, j) =~= s.subrange(0, j));
    }
}

proof fn lemma_trim_end_crlf_range(s: Seq<u8>, j: int)
    requires
        0 <= j <= s.len(),
        forall|k: int| j <= k < s.len() ==> is_crlf_byte(s[k]),
        j > 0 ==> !is_crlf_byte(s[j - 1]),
    ensures
        spec_trim_end_crlf(s) == s.subrange(0, j),
    decreases s.len() - j,
{
    if j == s.len() {
        if s.len() > 0 && is_crlf_byte(s.last()) {
            assert(false);
        }
        assert(s.subrange(0, s.len() as int) =~= s);
    } else {
        let t = s.drop_last();
        assert(is_crlf_byte(s.last()));
        lemma_trim_end_crlf_range(t, j);
        assert(t.subrange(0, j) =~= s.subrange(0, j));
    }
}

/// `h` without leading and trailing ASCII whitespace.
pub fn trim(h: &[u8]) -> (r: Vec<u8>)
    ensures
        r@ == spec_trim(h@),
{
    let mut i: usize = 0;
    while i < h.len() && (h[i] == 32 || h[i] == 9 || h[i] == 10 || h[i] == 13)
        invariant
            0 <= i <= h@.len(),
            forall|k: int| 0 <= k < i ==> is_ws(h@[k]),
        decreases h@.len() - i,
    {
        i = i + 1;
    }
    let mut j: usize = h.len();
    while j > i && (h[j - 1] == 32 || h[j - 1] == 9 || h[j - 1] == 10 || h[j - 1] == 13)
        invariant
            0 <= i <= j <= h@.len(),
            forall|k: int| 0 <= k < i ==> is_ws(h@[k]),
            forall|k: int| j <= k < h@.len() ==> is_ws(h@[k]),
        decreases j,
    {
        j = j - 1;
    }
    proof {
        lemma_trim_start_range(h@, i as int);
        let t = h@.subrange(i as int, h@.len() as int);
        lemma_trim_end_range(t, j - i);
        assert(t.subrange(0, j - i) =~= h@.subrange(i as int, j as int));
    }
    subvec(h, i, j)
}

/// `h` without its trailing carriage returns and line feeds.
pub fn trim_end_crlf(h: &[u8]) -> (r: Vec<u8>)
    ensures
        r@ == spec_trim_end_crlf(h@),
{
    let mut j: usize = h.len();
    while j > 0 && (h[j - 1] == 13 || h[j - 1] == 10)
        invariant
            0 <= j <= h@.len(),
            forall|k: int| j <= k < h@.len() ==> is_crlf_byte(h@[k]),
        decreases j,
    {
        j = j - 1;
    }
    proof {
        lemma_trim_end_crlf_range(h@, j as int);
    }
    subvec(h, 0, j)
}

/// `s` with every occurrence of the byte `b` removed.
pub open spec fn spec_remove(s: Seq<u8>, b: u8) -> Seq<u8>
    decreases s.len(),
{
    if s.len() == 0 {
        Seq::empty()
    } else if s.last() == b {
        spec_remove(s.drop_last(), b)
    } else {
        spec_remove(s.drop_last(), b).push(s.last())
    }
}

/// `h` with every occurrence of the byte `b` removed.
pub fn remove_byte(h: &[u8], b: u8) -> (r: Vec<u8>)
    ensures
        r@ == spec_remove(h@, b),
{
    let mut r: Vec<u8> = Vec::new();
    let mut i: usize = 0;
    while i < h.len()
        invariant
            0 <= i <= h@.len(),
            r@ == spec_remove(h@.subrange(0, i as int), b),
        decreases h@.len() - i,
    {
        proof {
            assert(h@.subrange(0, i + 1).drop_last() =~= h@.subrange(0, i as int));
        }
        if h[i] != b {
            r.push(h[i]);
        }
        i = i + 1;
    }
    proof {
        assert(h@.subrange(0, h@.len() as int) =~= h@);
    }
    r
}

/// True when `n` is a prefix of `h`.
pub open spec fn spec_starts_with(h: Seq<u8>, n: Seq<u8>) -> bool {
    matches_at(h, n, 0)
}

/// Checks whether `n` is a prefix of `h`.
pub fn starts_with(h: &[u8], n: &[u8]) -> (r: bool)
    ensures
        r == spec_starts_with(h@, n@),
{
    if n.len() > h.len() {
        return false;
    }
    is_match_at(h, n, 0)
}

/// `s` without one leading `c` (if any) and one trailing `c` (if any):
/// at most one character is removed from each end.
pub open spec fn spec_strip(s: Seq<u8>, c: u8) -> Seq<u8> {
    spec_strip_right(spec_strip_left(s, c), c)
}

/// `s` without one leading `c`, if it starts with one.
pub open spec fn spec_strip_left(s: Seq<u8>, c: u8) -> Seq<u8> {
    if s.len() > 0 && s[0] == c {
        s.skip(1)
    } else {
        s
    }
}

/// `s` without one trailing `c`, if it ends with one.
pub open spec fn spec_strip_right(s: Seq<u8>, c: u8) -> Seq<u8> {
    if s.len() > 0 && s.last() == c {
        s.drop_last()
    } else {
        s
    }
}

/// `h` without one leading `c`, if it starts with one.
pub fn strip_left(h: &[u8], c: u8) -> (r: Vec<u8>)
    ensures
        r@ == spec_strip_left(h@, c),
{
    if h.len() > 0 && h[0] == c {
        let r = subvec(h, 1, h.len());
        proof {
            assert(h@.subrange(1, h@.len() as int) =~= h@.skip(1));
        }
        r
    } else {
        subvec(h, 0, h.len())
    }
}

/// `h` without one trailing `c`, if it ends with one.
pub fn strip_right(h: &[u8], c: u8) -> (r: Vec<u8>)
    ensures
        r@ == spec_strip_right(h@, c),
{
    if h.len() > 0 && h[h.len() - 1] == c {
        let r = subvec(h, 0, h.len() - 1);
        proof {
            assert(h@.subrange(0, h@.len() - 1) =~= h@.drop_last());
        }
        r
    } else {
        subvec(h, 0, h.len())
    }
}

/// `h` without one leading and one trailing `c`.
pub fn strip(h: &[u8], c: u8) -> (r: Vec<u8>)
    ensures
        r@ == spec_strip(h@, c),
{
    let left = strip_left(h, c);
    strip_right(left.as_slice(), c)
}

/// The pieces of `s` delimited by the separator `sep`; a separator at the
/// edge or two in a row produce empty pieces, as `str::split` does.
pub open spec fn spec_split(s: Seq<u8>, sep: Seq<u8>) -> Seq<Seq<u8>>
    recommends
        sep.len() > 0,
    decreases s.len(),
{
    match spec_find(s, sep, 0) {
        None => seq![s],
        Some(i) => {
            if i < 0 || i + sep.len() > s.len() || sep.len() == 0 {
                seq![s]
            } else {
                seq![s.subrange(0, i)] + spec_split(s.skip(i + sep.len()), sep)
            }
        },
    }
}

/// Splits `h` at every occurrence of `sep`.
pub fn split(h: &[u8], sep: &[u8]) -> (r: Vec<Vec<u8>>)
    requires
        sep@.len() > 0,
    ensures
        r@.map_values(|p: Vec<u8>| p@) == spec_split(h@, sep@),
        r@.len() >= 1,
{
    let mut r: Vec<Vec<u8>> = Vec::new();
    let mut rest: Vec<u8> = subvec(h, 0, h.len());
    proof {
        assert(h@.subrange(0, h@.len() as int) =~= h@);
    }
    loop
        invariant
            sep@.len() > 0,
            r@.map_values(|p: Vec<u8>| p@).add(spec_split(rest@, sep@)) == spec_split(h@, sep@),
        decreases rest@.len(),
    {
        match find(rest.as_slice(), sep, 0) {
            None => {
                let ghost prefix = r@.map_values(|p: Vec<u8>| p@);
                r.push(rest);
                proof {
                    assert(r@.map_values(|p: Vec<u8>| p@) =~= prefix + spec_split(
                        h@,
                        sep@,
                    ).subrange(prefix.len() as int, spec_split(h@, sep@).len() as int));
                    assert(r@.map_values(|p: Vec<u8>| p@) =~= spec_split(h@, sep@));
                }
                return r;
            },
            Some(i) => {
                let ghost old_rest = rest@;
                let ghost prefix = r@.map_values(|p: Vec<u8>| p@);
                proof {
                    lemma_find_some(old_rest, sep@, 0, i as int);
                }
                let rest_len = rest.len();
                let piece = subvec(rest.as_slice(), 0, i);
                let new_rest = subvec(rest.as_slice(), i + sep.len(), rest_len);
                proof {
                    assert(old_rest.subrange(i + sep@.len(), old_rest.len() as int)
                        =~= old_rest.skip(i + sep@.len()));
                    assert(spec_split(old_rest, sep@) == seq![old_rest.subrange(0, i as int)]
                        + spec_split(old_rest.skip(i + sep@.len()), sep@));
                }
                r.push(piece);
                rest = new_rest;
                proof {
                    assert(r@.map_values(|p: Vec<u8>| p@) =~= prefix + seq![
                        old_rest.subrange(0, i as int),
                    ]);
                    assert(r@.map_values(|p: Vec<u8>| p@).add(spec_split(rest@, sep@)) =~= (prefix
                        + seq![old_rest.subrange(0, i as int)]).add(
                        spec_split(old_rest.skip(i + sep@.len()), sep@),
                    ));
                    assert((prefix + seq![old_rest.subrange(0, i as int)]).add(
                        spec_split(old_rest.skip(i + sep@.len()), sep@),
                    ) =~= prefix.add(spec_split(old_rest, sep@)));
                }
            },
        }
    }
}

/// True when every byte is ASCII; for such text every byte offset is a
/// character boundary.
pub open spec fn spec_is_ascii(s: Seq<u8>) -> bool {
    forall|i: int| 0 <= i < s.len() ==> s[i] < 128
}

/// Checks whether every byte of `h` is ASCII.
pub fn is_ascii_bytes(h: &[u8]) -> (r: bool)
    ensures
        r == spec_is_ascii(h@),
{
    let mut i: usize = 0;
    while i < h.len()
        invariant
            0 <= i <= h@.len(),
            forall|k: int| 0 <= k < i ==> h@[k] < 128,
        decreases h@.len() - i,
    {
        if h[i] >= 128 {
            return false;
        }
        i = i + 1;
    }
    true
}

/// What `String::from_utf8_lossy` makes of a byte sequence; the result
/// depends on the bytes alone.
pub uninterp spec fn lossy_chars(b: Seq<u8>) -> Seq<char>;

/// Relies on std's `String::from_utf8_lossy`: decodes bytes as UTF-8 with
/// replacement characters for invalid sequences, a function of the bytes
/// alone.
#[verifier::external_body]
pub fn utf8_lossy(b: &[u8]) -> (r: String)
    ensures
        r@ == lossy_chars(b@),
{
    String::from_utf8_lossy(b).to_string()
}

/// Whether two byte strings hold the same bytes.
pub fn eq_bytes(a: &[u8], b: &[u8]) -> (r: bool)
    ensures
        r == (a@ == b@),
{
    if a.len() != b.len() {
        return false;
    }
    let r = is_match_at(a, b, 0);
    proof {
        if a@.subrange(0, a@.len() as int) =~= b@ {
            assert(a@ =~= b@);
        }
        if a@ == b@ {
            assert(a@.subrange(0, a@.len() as int) =~= b@);
        }
    }
    r
}

} // verus!
