//! A small HTTP/1 head reader: enough of the grammar to peek a
//! request's path and headers at the public edge and to split captured
//! request and response bytes for the introspection store.  The head
//! must be complete (terminated by an empty line); the body is
//! whatever follows and is never interpreted.
use crate::text::{lower_byte, spec_is_digit, spec_lower_bytes, spec_split, split_bytes};
use vstd::prelude::*;

verus! {

/// Position just past the first `CRLF CRLF`, scanning from `i`.
pub open spec fn spec_find_head_end_from(b: Seq<u8>, i: int) -> Option<int>
    decreases b.len() - i + 4,
{
    if i > b.len() || i < 4 {
        None
    } else if b[i - 4] == 0x0d && b[i - 3] == 0x0a && b[i - 2] == 0x0d && b[i - 1] == 0x0a {
        Some(i)
    } else {
        spec_find_head_end_from(b, i + 1)
    }
}

/// Position just past the head terminator, if the head is complete.
pub open spec fn spec_head_end(b: Seq<u8>) -> Option<int> {
    spec_find_head_end_from(b, 4)
}

/// Finds the end of the head: the position just past the first empty
/// line.
pub fn find_head_end(b: &[u8]) -> (r: Option<usize>)
    ensures
        match r {
            Some(i) => Some(i as int) == spec_head_end(b@) && 4 <= i <= b@.len(),
            None => spec_head_end(b@) is None,
        },
{
    let n: usize = b.len();
    if n < 4 {
        return None;
    }
    let mut i: usize = 4;
    loop
        invariant
            4 <= i <= n,
            n == b@.len(),
            spec_head_end(b@) == spec_find_head_end_from(b@, i as int),
        decreases n - i,
    {
        if b[i - 4] == 0x0d && b[i - 3] == 0x0a && b[i - 2] == 0x0d && b[i - 1] == 0x0a {
            return Some(i);
        }
        if i == n {
            return None;
        }
        i = i + 1;
    }
}

/// A found head end is within the buffer and past the minimum head.
pub proof fn lemma_find_head_end_range(b: Seq<u8>, start: int)
    ensures
        spec_find_head_end_from(b, start) matches Some(i) ==> start <= i <= b.len() && i >= 4,
    decreases b.len() - start + 4,
{
    if start <= b.len() && start >= 4 {
        if !(b[start - 4] == 0x0d && b[start - 3] == 0x0a && b[start - 2] == 0x0d && b[start
            - 1] == 0x0a) {
            lemma_find_head_end_range(b, start + 1);
        }
    }
}

/// A complete head's end is within the buffer.
pub proof fn lemma_head_end_range(b: Seq<u8>)
    ensures
        spec_head_end(b) matches Some(i) ==> 4 <= i <= b.len(),
{
    lemma_find_head_end_range(b, 4);
}

/// A line with its trailing carriage return stripped.
pub open spec fn spec_strip_cr(line: Seq<u8>) -> Seq<u8> {
    if line.len() > 0 && line.last() == 0x0d {
        line.drop_last()
    } else {
        line
    }
}

/// Strips a trailing carriage return.
pub fn strip_cr(line: &[u8]) -> (r: Vec<u8>)
    ensures
        r@ == spec_strip_cr(line@),
{
    let n: usize = line.len();
    if n > 0 && line[n - 1] == 0x0d {
        let r = crate::codec::copy_range(line, 0, n - 1);
        assert(r@ =~= spec_strip_cr(line@));
        r
    } else {
        let r = crate::codec::copy_range(line, 0, n);
        assert(r@ =~= spec_strip_cr(line@));
        r
    }
}

/// The head's lines: the bytes before the terminator, split at line
/// feeds, each stripped of its carriage return.
pub open spec fn spec_head_lines(b: Seq<u8>, head_end: int) -> Seq<Seq<u8>> {
    spec_split(b.take(head_end - 4), 0x0a).map_values(|l: Seq<u8>| spec_strip_cr(l))
}

/// Splits the head region into lines.
pub fn head_lines(b: &[u8], head_end: usize) -> (r: Vec<Vec<u8>>)
    requires
        4 <= head_end <= b@.len(),
    ensures
        r@.map_values(|l: Vec<u8>| l@) == spec_head_lines(b@, head_end as int),
{
    let region = crate::codec::copy_range(b, 0, head_end - 4);
    let raw = split_bytes(region.as_slice(), 0x0a);
    let mut out: Vec<Vec<u8>> = Vec::new();
    let n: usize = raw.len();
    let ghost raw_models = raw@.map_values(|l: Vec<u8>| l@);
    proof {
        assert(region@ =~= b@.take(head_end - 4));
    }
    let mut i: usize = 0;
    while i < n
        invariant
            n == raw@.len(),
            raw_models == raw@.map_values(|l: Vec<u8>| l@),
            0 <= i <= n,
            out@.len() == i,
            forall|j: int|
                0 <= j < i ==> (#[trigger] out@[j])@ == spec_strip_cr(raw_models[j]),
        decreases n - i,
    {
        let stripped = strip_cr(raw[i].as_slice());
        proof {
            assert(raw@[i as int]@ == raw_models[i as int]);
        }
        out.push(stripped);
        i = i + 1;
    }
    proof {
        let lhs = out@.map_values(|l: Vec<u8>| l@);
        let rhs = spec_head_lines(b@, head_end as int);
        assert(rhs == raw_models.map_values(|l: Seq<u8>| spec_strip_cr(l)));
        assert forall|j: int| 0 <= j < n implies lhs[j] == rhs[j] by {
            assert(lhs[j] == out@[j]@);
            assert(rhs[j] == spec_strip_cr(raw_models[j]));
        }
        assert(lhs =~= rhs);
    }
    out
}

/// One header field, as raw bytes.
pub struct HeaderField {
    pub name: Vec<u8>,
    pub value: Vec<u8>,
}

/// The mathematical shape of a header field.
pub struct HeaderModel {
    pub name: Seq<u8>,
    pub value: Seq<u8>,
}

impl View for HeaderField {
    type V = HeaderModel;

    open spec fn view(&self) -> HeaderModel {
        HeaderModel { name: self.name@, value: self.value@ }
    }
}

/// Position of the first occurrence of `c`, scanning from `i`.
pub open spec fn spec_find_byte_from(s: Seq<u8>, c: u8, i: int) -> Option<int>
    decreases s.len() - i,
{
    if i < 0 || i >= s.len() {
        None
    } else if s[i] == c {
        Some(i)
    } else {
        spec_find_byte_from(s, c, i + 1)
    }
}

/// Finds the first occurrence of a byte.
pub fn find_byte(s: &[u8], c: u8) -> (r: Option<usize>)
    ensures
        match r {
            Some(i) => Some(i as int) == spec_find_byte_from(s@, c, 0) && i < s@.len() && s@[
                i as int
            ] == c,
            None => spec_find_byte_from(s@, c, 0) is None,
        },
{
    let n: usize = s.len();
    let mut i: usize = 0;
    while i < n
        invariant
            n == s@.len(),
            0 <= i <= n,
            spec_find_byte_from(s@, c, 0) == spec_find_byte_from(s@, c, i as int),
        decreases n - i,
    {
        if s[i] == c {
            return Some(i);
        }
        i = i + 1;
    }
    None
}

/// A found byte position is in range and holds the byte.
pub proof fn lemma_find_byte_from_range(s: Seq<u8>, c: u8, start: int)
    ensures
        spec_find_byte_from(s, c, start) matches Some(i) ==> start <= i < s.len() && s[i] == c,
    decreases s.len() - start,
{
    if 0 <= start < s.len() && s[start] != c {
        lemma_find_byte_from_range(s, c, start + 1);
    }
}

/// A found byte position (from the start) is in range and holds the
/// byte.
pub proof fn lemma_find_byte_in_range(s: Seq<u8>, c: u8)
    ensures
        spec_find_byte_from(s, c, 0) matches Some(i) ==> 0 <= i < s.len() && s[i] == c,
{
    lemma_find_byte_from_range(s, c, 0);
}

/// Whether a byte is linear whitespace inside a header line.
pub open spec fn spec_is_lws(b: u8) -> bool {
    b == 0x20 || b == 0x09
}

/// The line with leading linear whitespace dropped.
pub open spec fn spec_trim_front(s: Seq<u8>) -> Seq<u8>
    decreases s.len(),
{
    if s.len() > 0 && spec_is_lws(s[0]) {
        spec_trim_front(s.drop_first())
    } else {
        s
    }
}

/// Dropping a whitespace prefix step by step reaches the same trim.
proof fn lemma_trim_front_skip(s: Seq<u8>, k: int)
    requires
        0 <= k <= s.len(),
        forall|j: int| 0 <= j < k ==> spec_is_lws(#[trigger] s[j]),
    ensures
        spec_trim_front(s) == spec_trim_front(s.skip(k)),
    decreases k,
{
    if k > 0 {
        assert(spec_is_lws(s[0]));
        assert(s.drop_first() =~= s.skip(1));
        assert forall|j: int| 0 <= j < k - 1 implies spec_is_lws(#[trigger] s.skip(1)[j]) by {
            assert(s.skip(1)[j] == s[j + 1]);
        }
        lemma_trim_front_skip(s.skip(1), k - 1);
        assert(s.skip(1).skip(k - 1) =~= s.skip(k));
        assert(spec_trim_front(s) == spec_trim_front(s.drop_first()));
        assert(spec_trim_front(s.drop_first()) == spec_trim_front(s.skip(1)));
    } else {
        assert(s.skip(0) =~= s);
    }
}

/// Trims leading linear whitespace.
pub fn trim_front(s: &[u8]) -> (r: Vec<u8>)
    ensures
        r@ == spec_trim_front(s@),
{
    let n: usize = s.len();
    let mut k: usize = 0;
    while k < n && (s[k] == 0x20 || s[k] == 0x09)
        invariant
            n == s@.len(),
            0 <= k <= n,
            forall|j: int| 0 <= j < k ==> spec_is_lws(#[trigger] s@[j]),
        decreases n - k,
    {
        k = k + 1;
    }
    proof {
        lemma_trim_front_skip(s@, k as int);
        if k < n {
            assert(!spec_is_lws(s@[k as int]));
        }
        assert(spec_trim_front(s@.skip(k as int)) == s@.skip(k as int));
    }
    let r = crate::codec::copy_range(s, k, n);
    assert(r@ =~= s@.skip(k as int));
    r
}

/// The header field a line denotes: the bytes before the first colon
/// name it, the bytes after it — less leading whitespace — are its
/// value.  A line without a colon is malformed.
pub open spec fn spec_header_of_line(line: Seq<u8>) -> Option<HeaderModel> {
    match spec_find_byte_from(line, 0x3a, 0) {
        None => None,
        Some(i) => Some(
            HeaderModel { name: line.take(i), value: spec_trim_front(line.skip(i + 1)) },
        ),
    }
}

/// Parses one header line.
pub fn header_of_line(line: &[u8]) -> (r: Option<HeaderField>)
    ensures
        match r {
            Some(f) => Some(f@) == spec_header_of_line(line@),
            None => spec_header_of_line(line@) is None,
        },
{
    match find_byte(line, 0x3a) {
        None => None,
        Some(i) => {
            let n: usize = line.len();
            let name = crate::codec::copy_range(line, 0, i);
            let rest = crate::codec::copy_range(line, i + 1, n);
            assert(rest@ =~= line@.skip(i + 1));
            let value = trim_front(rest.as_slice());
            proof {
                assert(name@ =~= line@.take(i as int));
            }
            Some(HeaderField { name, value })
        },
    }
}

/// The header fields the head lines denote, oldest first; any
/// malformed line spoils the head.
pub open spec fn spec_headers_of_lines(lines: Seq<Seq<u8>>) -> Option<Seq<HeaderModel>>
    decreases lines.len(),
{
    if lines.len() == 0 {
        Some(Seq::empty())
    } else {
        match spec_header_of_line(lines.last()) {
            None => None,
            Some(h) => match spec_headers_of_lines(lines.drop_last()) {
                None => None,
                Some(hs) => Some(hs.push(h)),
            },
        }
    }
}

/// Parses the header lines; a malformed line spoils the head.
pub fn headers_of_lines(lines: &Vec<Vec<u8>>, start: usize) -> (r: Option<Vec<HeaderField>>)
    requires
        start <= lines@.len(),
    ensures
        match r {
            Some(hs) => Some(hs@.map_values(|f: HeaderField| f@)) == spec_headers_of_lines(
                lines@.map_values(|l: Vec<u8>| l@).skip(start as int),
            ),
            None => spec_headers_of_lines(
                lines@.map_values(|l: Vec<u8>| l@).skip(start as int),
            ) is None,
        },
{
    let ghost tail = lines@.map_values(|l: Vec<u8>| l@).skip(start as int);
    let n: usize = lines.len();
    let mut out: Vec<HeaderField> = Vec::new();
    proof {
        assert(tail.take(0) =~= Seq::<Seq<u8>>::empty());
        assert(out@.map_values(|f: HeaderField| f@) =~= Seq::<HeaderModel>::empty());
    }
    let mut i: usize = start;
    while i < n
        invariant
            start <= i <= n,
            n == lines@.len(),
            tail == lines@.map_values(|l: Vec<u8>| l@).skip(start as int),
            Some(out@.map_values(|f: HeaderField| f@)) == spec_headers_of_lines(
                tail.take(i - start),
            ),
        decreases n - i,
    {
        let ghost done = tail.take(i - start);
        match header_of_line(lines[i].as_slice()) {
            None => {
                proof {
                    assert(lines@[i as int]@ == tail[i - start]);
                    lemma_headers_prefix_none(tail, i - start);
                }
                return None;
            },
            Some(f) => {
                out.push(f);
                proof {
                    assert(lines@[i as int]@ == tail[i - start]);
                    assert(tail.take(i + 1 - start).drop_last() =~= done);
                    assert(tail.take(i + 1 - start).last() == tail[i - start]);
                    assert(out@.map_values(|f2: HeaderField| f2@).drop_last() =~= spec_headers_of_lines(done)->0);
                    assert(out@.map_values(|f2: HeaderField| f2@).last() == f@);
                }
            },
        }
        i = i + 1;
    }
    proof {
        assert(tail.take(n - start) =~= tail);
    }
    Some(out)
}

/// A malformed line anywhere spoils the whole run of header lines.
proof fn lemma_headers_prefix_none(lines: Seq<Seq<u8>>, i: int)
    requires
        0 <= i < lines.len(),
        spec_header_of_line(lines[i]) is None,
    ensures
        spec_headers_of_lines(lines) is None,
    decreases lines.len(),
{
    if lines.len() > 0 {
        if i == lines.len() - 1 {
            assert(lines.last() == lines[i]);
        } else {
            assert(lines.drop_last()[i] == lines[i]);
            lemma_headers_prefix_none(lines.drop_last(), i);
        }
    }
}

/// A complete request head: the request line's method and path, the
/// header fields, and where the body starts.
pub struct RequestHead {
    pub method: Vec<u8>,
    pub path: Vec<u8>,
    pub headers: Vec<HeaderField>,
    pub head_len: usize,
}

/// The mathematical shape of a request head.
pub struct RequestHeadModel {
    pub method: Seq<u8>,
    pub path: Seq<u8>,
    pub headers: Seq<HeaderModel>,
    pub head_len: int,
}

impl View for RequestHead {
    type V = RequestHeadModel;

    open spec fn view(&self) -> RequestHeadModel {
        RequestHeadModel {
            method: self.method@,
            path: self.path@,
            headers: self.headers@.map_values(|f: HeaderField| f@),
            head_len: self.head_len as int,
        }
    }
}

/// The request head a byte sequence denotes: a complete head whose
/// first line has at least method, path and version, and whose other
/// lines are well-formed header fields.
pub open spec fn spec_request_head(b: Seq<u8>) -> Option<RequestHeadModel> {
    match spec_head_end(b) {
        None => None,
        Some(e) => {
            let lines = spec_head_lines(b, e);
            let rl = spec_split(lines[0], 0x20);
            if rl.len() < 3 {
                None
            } else {
                match spec_headers_of_lines(lines.drop_first()) {
                    None => None,
                    Some(hs) => Some(
                        RequestHeadModel {
                            method: rl[0],
                            path: rl[1],
                            headers: hs,
                            head_len: e,
                        },
                    ),
                }
            }
        },
    }
}

/// Parses a complete request head; anything less is rejected.
pub fn parse_request_head(b: &[u8]) -> (r: Option<RequestHead>)
    ensures
        match r {
            Some(h) => Some(h@) == spec_request_head(b@),
            None => spec_request_head(b@) is None,
        },
{
    let e: usize = match find_head_end(b) {
        Some(e) => e,
        None => {
            return None;
        },
    };
    let lines = head_lines(b, e);
    proof {
        crate::text::lemma_split_nonempty(b@.take(e - 4), 0x0a);
        assert(lines@.len() >= 1);
        assert(lines@[0]@ == spec_head_lines(b@, e as int)[0]);
    }
    let request_line = split_bytes(lines[0].as_slice(), 0x20);
    if request_line.len() < 3 {
        return None;
    }
    proof {
        assert(request_line@[0]@ == spec_split(spec_head_lines(b@, e as int)[0], 0x20)[0]);
        assert(request_line@[1]@ == spec_split(spec_head_lines(b@, e as int)[0], 0x20)[1]);
        assert(lines@.map_values(|l: Vec<u8>| l@).skip(1) =~= spec_head_lines(
            b@,
            e as int,
        ).drop_first());
    }
    let headers = match headers_of_lines(&lines, 1) {
        Some(hs) => hs,
        None => {
            return None;
        },
    };
    let method = crate::codec::copy_range(request_line[0].as_slice(), 0, request_line[0].len());
    let path = crate::codec::copy_range(request_line[1].as_slice(), 0, request_line[1].len());
    proof {
        assert(method@ =~= request_line@[0]@);
        assert(path@ =~= request_line@[1]@);
    }
    Some(RequestHead { method, path, headers, head_len: e })
}

/// A complete response head: the status code, the header fields, and
/// where the body starts.
pub struct ResponseHead {
    pub status: u16,
    pub headers: Vec<HeaderField>,
    pub head_len: usize,
}

/// The mathematical shape of a response head.
pub struct ResponseHeadModel {
    pub status: u16,
    pub headers: Seq<HeaderModel>,
    pub head_len: int,
}

impl View for ResponseHead {
    type V = ResponseHeadModel;

    open spec fn view(&self) -> ResponseHeadModel {
        ResponseHeadModel {
            status: self.status,
            headers: self.headers@.map_values(|f: HeaderField| f@),
            head_len: self.head_len as int,
        }
    }
}

/// The response head a byte sequence denotes: a complete head whose
/// status line carries a three-digit code.
pub open spec fn spec_response_head(b: Seq<u8>) -> Option<ResponseHeadModel> {
    match spec_head_end(b) {
        None => None,
        Some(e) => {
            let lines = spec_head_lines(b, e);
            let sl = spec_split(lines[0], 0x20);
            if sl.len() < 2 || sl[1].len() != 3 || !crate::text::all_digits(sl[1]) {
                None
            } else {
                match spec_headers_of_lines(lines.drop_first()) {
                    None => None,
                    Some(hs) => Some(
                        ResponseHeadModel {
                            status: crate::text::spec_digits_value(sl[1]) as u16,
                            headers: hs,
                            head_len: e,
                        },
                    ),
                }
            }
        },
    }
}

/// Parses a complete response head; anything less is rejected.
pub fn parse_response_head(b: &[u8]) -> (r: Option<ResponseHead>)
    ensures
        match r {
            Some(h) => Some(h@) == spec_response_head(b@),
            None => spec_response_head(b@) is None,
        },
{
    let e: usize = match find_head_end(b) {
        Some(e) => e,
        None => {
            return None;
        },
    };
    let lines = head_lines(b, e);
    proof {
        crate::text::lemma_split_nonempty(b@.take(e - 4), 0x0a);
        assert(lines@.len() >= 1);
        assert(lines@[0]@ == spec_head_lines(b@, e as int)[0]);
    }
    let status_line = split_bytes(lines[0].as_slice(), 0x20);
    if status_line.len() < 2 {
        return None;
    }
    proof {
        assert(status_line@[1]@ == spec_split(spec_head_lines(b@, e as int)[0], 0x20)[1]);
    }
    if status_line[1].len() != 3 {
        return None;
    }
    let status: u16 = match crate::text::parse_u16(status_line[1].as_slice()) {
        Some(v) => v,
        None => {
            proof {
                let st = spec_split(spec_head_lines(b@, e as int)[0], 0x20)[1];
                if crate::text::all_digits(st) {
                    crate::text::lemma_digits_value_bound(st);
                    assert(crate::text::pow10(0) == 1);
                    assert(crate::text::pow10(1) == 10);
                    assert(crate::text::pow10(2) == 100);
                    assert(crate::text::pow10(3) == 1000);
                }
            }
            return None;
        },
    };
    proof {
        let st = spec_split(spec_head_lines(b@, e as int)[0], 0x20)[1];
        assert(crate::text::all_digits(st));
        assert(lines@.map_values(|l: Vec<u8>| l@).skip(1) =~= spec_head_lines(
            b@,
            e as int,
        ).drop_first());
    }
    let headers = match headers_of_lines(&lines, 1) {
        Some(hs) => hs,
        None => {
            return None;
        },
    };
    Some(ResponseHead { status, headers, head_len: e })
}

/// Byte-wise case folding of `a` equals `name`.
pub fn eq_lower(a: &[u8], name: &[u8]) -> (r: bool)
    ensures
        r == (spec_lower_bytes(a@) == name@),
{
    if a.len() != name.len() {
        assert(spec_lower_bytes(a@).len() != name@.len());
        return false;
    }
    let n: usize = a.len();
    let mut i: usize = 0;
    while i < n
        invariant
            n == a@.len() == name@.len(),
            0 <= i <= n,
            forall|j: int| 0 <= j < i ==> spec_lower_bytes(a@)[j] == name@[j],
        decreases n - i,
    {
        if lower_byte(a[i]) != name[i] {
            assert(spec_lower_bytes(a@)[i as int] != name@[i as int]);
            return false;
        }
        i = i + 1;
    }
    assert(spec_lower_bytes(a@) =~= name@);
    true
}

/// The value of the first header whose case-folded name is `name`.
pub open spec fn spec_find_header(hs: Seq<HeaderModel>, name: Seq<u8>) -> Option<Seq<u8>>
    decreases hs.len(),
{
    if hs.len() == 0 {
        None
    } else if spec_lower_bytes(hs[0].name) == name {
        Some(hs[0].value)
    } else {
        spec_find_header(hs.drop_first(), name)
    }
}

/// Looks a header up by its lowercase name, case-insensitively.
pub fn find_header(headers: &Vec<HeaderField>, name: &[u8]) -> (r: Option<Vec<u8>>)
    ensures
        match r {
            Some(v) => Some(v@) == spec_find_header(
                headers@.map_values(|f: HeaderField| f@),
                name@,
            ),
            None => spec_find_header(headers@.map_values(|f: HeaderField| f@), name@) is None,
        },
{
    let ghost hs = headers@.map_values(|f: HeaderField| f@);
    let n: usize = headers.len();
    proof {
        assert(hs.skip(0) =~= hs);
    }
    let mut i: usize = 0;
    while i < n
        invariant
            n == headers@.len(),
            hs == headers@.map_values(|f: HeaderField| f@),
            0 <= i <= n,
            spec_find_header(hs, name@) == spec_find_header(hs.skip(i as int), name@),
        decreases n - i,
    {
        proof {
            assert(hs.skip(i as int)[0] == hs[i as int]);
            assert(hs.skip(i as int).drop_first() =~= hs.skip(i + 1));
        }
        if eq_lower(headers[i].name.as_slice(), name) {
            let v = crate::codec::copy_range(
                headers[i].value.as_slice(),
                0,
                headers[i].value.len(),
            );
            proof {
                assert(v@ =~= hs[i as int].value);
            }
            return Some(v);
        }
        i = i + 1;
    }
    proof {
        assert(hs.skip(n as int) =~= Seq::<HeaderModel>::empty());
    }
    None
}

} // verus!
