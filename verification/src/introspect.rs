//! The client's request capture: each proxied exchange is parsed
//! best-effort into a record — method, path, headers, bodies, timing —
//! and kept in an in-memory store the local dashboard reads.
use crate::httphead::{
    parse_request_head, parse_response_head, spec_request_head, spec_response_head, HeaderField,
    HeaderModel,
};
use crate::text::{lossy_of, string_from_utf8, utf8_lossy};
use vstd::prelude::*;
use vstd::multiset::Multiset;
use vstd::string::StringExecFns;
use vstd::utf8::{decode_utf8, valid_utf8};

verus! {

/// One header, as text.
pub struct HeaderText {
    pub name: String,
    pub value: String,
}

/// The mathematical shape of a text header.
pub struct HeaderTextModel {
    pub name: Seq<char>,
    pub value: Seq<char>,
}

impl View for HeaderText {
    type V = HeaderTextModel;

    open spec fn view(&self) -> HeaderTextModel {
        HeaderTextModel { name: self.name@, value: self.value@ }
    }
}

impl Clone for HeaderText {
    /// Clones the header, keeping its text.
    fn clone(&self) -> (r: Self)
        ensures
            r@ == self@,
    {
        HeaderText { name: self.name.clone(), value: self.value.clone() }
    }
}

/// The text a raw header turns into: the name read leniently, the
/// value read exactly or replaced by a placeholder.
pub open spec fn spec_header_text(h: HeaderModel) -> HeaderTextModel {
    HeaderTextModel {
        name: lossy_of(h.name),
        value: if valid_utf8(h.value) {
            decode_utf8(h.value)
        } else {
            "???"@
        },
    }
}

/// The texts of a run of raw headers.
pub open spec fn spec_header_texts(hs: Seq<HeaderModel>) -> Seq<HeaderTextModel> {
    hs.map_values(|h: HeaderModel| spec_header_text(h))
}

/// Turns raw headers into text headers.
fn header_texts(headers: &Vec<HeaderField>) -> (r: Vec<HeaderText>)
    ensures
        r@.map_values(|t: HeaderText| t@) == spec_header_texts(
            headers@.map_values(|f: HeaderField| f@),
        ),
{
    let ghost hs = headers@.map_values(|f: HeaderField| f@);
    let n: usize = headers.len();
    let mut out: Vec<HeaderText> = Vec::new();
    let mut i: usize = 0;
    while i < n
        invariant
            n == headers@.len(),
            hs == headers@.map_values(|f: HeaderField| f@),
            0 <= i <= n,
            out@.len() == i,
            forall|j: int|
                0 <= j < i ==> (#[trigger] out@[j])@ == spec_header_text(hs[j]),
        decreases n - i,
    {
        proof {
            assert(headers@[i as int]@ == hs[i as int]);
        }
        let name = utf8_lossy(headers[i].name.as_slice());
        let value = match string_from_utf8(
            crate::codec::copy_range(
                headers[i].value.as_slice(),
                0,
                headers[i].value.len(),
            ),
        ) {
            Some(v) => v,
            None => {
                let placeholder: String = "???".to_owned();
                proof {
                    reveal_strlit("???");
                }
                placeholder
            },
        };
        proof {
            assert(headers[i as int].value@.subrange(
                0,
                headers[i as int].value@.len() as int,
            ) =~= hs[i as int].value);
        }
        out.push(HeaderText { name, value });
        i = i + 1;
    }
    proof {
        let lhs = out@.map_values(|t: HeaderText| t@);
        let rhs = spec_header_texts(hs);
        assert forall|j: int| 0 <= j < n implies lhs[j] == rhs[j] by {
            assert(lhs[j] == out@[j]@);
            assert(rhs[j] == spec_header_text(hs[j]));
        }
        assert(lhs =~= rhs);
    }
    out
}

/// One captured exchange.
pub struct Request {
    pub id: String,
    pub status: u16,
    pub is_replay: bool,
    pub path: Option<String>,
    pub method: Option<String>,
    pub headers: Vec<HeaderText>,
    pub body_data: Vec<u8>,
    pub response_headers: Vec<HeaderText>,
    pub response_data: Vec<u8>,
    pub started: i64,
    pub completed: i64,
    pub entire_request: Vec<u8>,
}

/// The mathematical shape of a captured exchange.
pub struct RequestModel {
    pub id: Seq<char>,
    pub status: u16,
    pub is_replay: bool,
    pub path: Option<Seq<char>>,
    pub method: Option<Seq<char>>,
    pub headers: Seq<HeaderTextModel>,
    pub body_data: Seq<u8>,
    pub response_headers: Seq<HeaderTextModel>,
    pub response_data: Seq<u8>,
    pub started: i64,
    pub completed: i64,
    pub entire_request: Seq<u8>,
}

impl View for Request {
    type V = RequestModel;

    open spec fn view(&self) -> RequestModel {
        RequestModel {
            id: self.id@,
            status: self.status,
            is_replay: self.is_replay,
            path: match &self.path {
                Some(p) => Some(p@),
                None => None,
            },
            method: match &self.method {
                Some(m) => Some(m@),
                None => None,
            },
            headers: self.headers@.map_values(|t: HeaderText| t@),
            body_data: self.body_data@,
            response_headers: self.response_headers@.map_values(|t: HeaderText| t@),
            response_data: self.response_data@,
            started: self.started,
            completed: self.completed,
            entire_request: self.entire_request@,
        }
    }
}

/// Clones a byte vector.
fn clone_bytes(v: &Vec<u8>) -> (r: Vec<u8>)
    ensures
        r@ == v@,
{
    let r = crate::codec::copy_range(v.as_slice(), 0, v.len());
    proof {
        assert(r@ =~= v@);
    }
    r
}

/// Clones a run of text headers.
fn clone_header_texts(v: &Vec<HeaderText>) -> (r: Vec<HeaderText>)
    ensures
        r@.map_values(|t: HeaderText| t@) == v@.map_values(|t: HeaderText| t@),
{
    let n: usize = v.len();
    let mut out: Vec<HeaderText> = Vec::new();
    let mut i: usize = 0;
    while i < n
        invariant
            n == v@.len(),
            0 <= i <= n,
            out@.len() == i,
            forall|j: int| 0 <= j < i ==> (#[trigger] out@[j])@ == v@[j]@,
        decreases n - i,
    {
        out.push(v[i].clone());
        i = i + 1;
    }
    proof {
        let lhs = out@.map_values(|t: HeaderText| t@);
        let rhs = v@.map_values(|t: HeaderText| t@);
        assert forall|j: int| 0 <= j < n implies lhs[j] == rhs[j] by {
            assert(lhs[j] == out@[j]@);
            assert(rhs[j] == v@[j]@);
        }
        assert(lhs =~= rhs);
    }
    out
}

impl Clone for Request {
    /// Clones the record, keeping its model.
    fn clone(&self) -> (r: Self)
        ensures
            r@ == self@,
    {
        Request {
            id: self.id.clone(),
            status: self.status,
            is_replay: self.is_replay,
            path: match &self.path {
                Some(p) => Some(p.clone()),
                None => None,
            },
            method: match &self.method {
                Some(m) => Some(m.clone()),
                None => None,
            },
            headers: clone_header_texts(&self.headers),
            body_data: clone_bytes(&self.body_data),
            response_headers: clone_header_texts(&self.response_headers),
            response_data: clone_bytes(&self.response_data),
            started: self.started,
            completed: self.completed,
            entire_request: clone_bytes(&self.entire_request),
        }
    }
}

impl Request {
    /// How long the exchange took, as text: whole seconds when it
    /// took at least one, else milliseconds.
    pub fn elapsed(&self) -> (r: String)
        requires
            self.started <= self.completed,
            self.completed - self.started <= i64::MAX,
        ensures
            ({
                let ms = self.completed - self.started;
                if ms / 1000 == 0 {
                    r@ == crate::text::chars_of_ascii(
                        crate::text::spec_decimal_digits(ms as nat),
                    ) + "ms"@
                } else {
                    r@ == crate::text::chars_of_ascii(
                        crate::text::spec_decimal_digits((ms / 1000) as nat),
                    ) + "s"@
                }
            }),
    {
        let ms: i64 = self.completed - self.started;
        let secs: i64 = ms / 1000;
        let mut out = String::new();
        if secs == 0 {
            let digits = crate::text::decimal_string(ms as u64);
            out.append(digits.as_str());
            out.append("ms");
            proof {
                reveal_strlit("ms");
            }
        } else {
            let digits = crate::text::decimal_string(secs as u64);
            out.append(digits.as_str());
            out.append("s");
            proof {
                reveal_strlit("s");
            }
        }
        out
    }
}

/// Builds a capture record from the drained request and response
/// bytes: the request head must be complete; the response is read
/// best-effort, a malformed one keeping status zero and its raw
/// bytes.
pub fn collect_capture(
    id: String,
    started: i64,
    completed: i64,
    request_bytes: Vec<u8>,
    response_bytes: Vec<u8>,
) -> (r: Option<Request>)
    ensures
        r is Some <==> spec_request_head(request_bytes@) is Some,
        r is Some ==> ({
            let h = spec_request_head(request_bytes@)->0;
            let rq = r->0@;
            &&& rq.id == id@
            &&& rq.started == started
            &&& rq.completed == completed
            &&& !rq.is_replay
            &&& rq.method == Some(lossy_of(h.method))
            &&& rq.path == Some(lossy_of(h.path))
            &&& rq.headers == spec_header_texts(h.headers)
            &&& rq.body_data == request_bytes@.skip(h.head_len)
            &&& rq.entire_request == request_bytes@
            &&& (match spec_response_head(response_bytes@) {
                Some(rh) => rq.status == rh.status && rq.response_headers == spec_header_texts(
                    rh.headers,
                ) && rq.response_data == response_bytes@.skip(rh.head_len),
                None => rq.status == 0 && rq.response_headers.len() == 0 && rq.response_data
                    == response_bytes@,
            })
        }),
{
    let head = match parse_request_head(request_bytes.as_slice()) {
        Some(h) => h,
        None => {
            return None;
        },
    };
    proof {
        crate::httphead::lemma_head_end_range(request_bytes@);
    }
    let method = utf8_lossy(head.method.as_slice());
    let path = utf8_lossy(head.path.as_slice());
    let headers = header_texts(&head.headers);
    let body_data = crate::codec::copy_range(
        request_bytes.as_slice(),
        head.head_len,
        request_bytes.len(),
    );
    proof {
        assert(body_data@ =~= request_bytes@.skip(head@.head_len));
    }
    let (status, response_headers, response_data): (u16, Vec<HeaderText>, Vec<u8>) = match
        parse_response_head(response_bytes.as_slice()) {
        Some(rh) => {
            proof {
                crate::httphead::lemma_head_end_range(response_bytes@);
            }
            let rd = crate::codec::copy_range(
                response_bytes.as_slice(),
                rh.head_len,
                response_bytes.len(),
            );
            proof {
                assert(rd@ =~= response_bytes@.skip(rh@.head_len));
            }
            (rh.status, header_texts(&rh.headers), rd)
        },
        None => (0, Vec::new(), response_bytes),
    };
    Some(
        Request {
            id,
            status,
            is_replay: false,
            path: Some(path),
            method: Some(method),
            headers,
            body_data,
            response_headers,
            response_data,
            started,
            completed,
            entire_request: request_bytes,
        },
    )
}

/// First record (from the newest end) with this id.
pub open spec fn lookup_request(s: Seq<RequestModel>, id: Seq<char>) -> Option<RequestModel>
    decreases s.len(),
{
    if s.len() == 0 {
        None
    } else if s.last().id == id {
        Some(s.last())
    } else {
        lookup_request(s.drop_last(), id)
    }
}

/// No two records share an id.
pub open spec fn request_ids_unique(s: Seq<RequestModel>) -> bool {
    forall|i: int, j: int| 0 <= i < j < s.len() ==> (#[trigger] s[i]).id != (#[trigger] s[j]).id
}

/// The store of captured exchanges, keyed by record id; the dashboard
/// reads snapshots of it.
pub struct Requests {
    entries: Vec<Request>,
}

impl Requests {
    /// The stored records, as models.
    pub closed spec fn models(&self) -> Seq<RequestModel> {
        self.entries@.map_values(|r: Request| r@)
    }

    /// At most one record per id.
    pub open spec fn wf(&self) -> bool {
        request_ids_unique(self.models())
    }

    /// An empty store.
    pub fn new() -> (r: Requests)
        ensures
            r.wf(),
            r.models() == Seq::<RequestModel>::empty(),
    {
        let r = Requests { entries: Vec::new() };
        proof {
            assert(r.models() =~= Seq::<RequestModel>::empty());
        }
        r
    }

    /// How many records are stored.
    pub fn len(&self) -> (r: usize)
        ensures
            r == self.models().len(),
    {
        self.entries.len()
    }

    /// Index of the record with this id, if any.
    fn find_index(&self, id: &String) -> (r: Option<usize>)
        ensures
            match r {
                Some(i) => i < self.models().len() && self.models()[i as int].id == id@,
                None => forall|i: int|
                    0 <= i < self.models().len() ==> (#[trigger] self.models()[i]).id != id@,
            },
    {
        let n: usize = self.entries.len();
        let mut i: usize = 0;
        while i < n
            invariant
                n == self.entries@.len(),
                0 <= i <= n,
                forall|j: int| 0 <= j < i ==> (#[trigger] self.entries@[j])@.id != id@,
            decreases n - i,
        {
            if self.entries[i].id == *id {
                assert(self.models()[i as int].id == id@);
                return Some(i);
            }
            i = i + 1;
        }
        assert forall|i2: int| 0 <= i2 < self.models().len() implies (
        #[trigger] self.models()[i2]).id != id@ by {
            assert(self.models()[i2] == self.entries@[i2]@);
        }
        None
    }

    /// Stores a record; a record with the same id is replaced.
    pub fn insert(&mut self, record: Request)
        requires
            old(self).wf(),
        ensures
            final(self).wf(),
            forall|x: Seq<char>|
                lookup_request(final(self).models(), x) == (if x == record@.id {
                    Some(record@)
                } else {
                    lookup_request(old(self).models(), x)
                }),
    {
        let ghost old_s = self.models();
        let ghost m = record@;
        match self.find_index(&record.id) {
            Some(i) => {
                self.entries.set(i, record);
                proof {
                    let t = self.models();
                    assert(t =~= old_s.update(i as int, m));
                    assert forall|x: Seq<char>|
                        lookup_request(t, x) == (if x == m.id {
                            Some(m)
                        } else {
                            lookup_request(old_s, x)
                        }) by {
                        lemma_lookup_request_update(old_s, i as int, m, x);
                    }
                    assert(request_ids_unique(t)) by {
                        assert(forall|a: int|
                            0 <= a < t.len() && a != i ==> (#[trigger] t[a]) == old_s[a]);
                        assert(forall|a: int|
                            0 <= a < t.len() ==> (#[trigger] t[a]).id == old_s[a].id);
                    }
                }
            },
            None => {
                self.entries.push(record);
                proof {
                    let t = self.models();
                    assert(t =~= old_s.push(m));
                    assert(t.drop_last() =~= old_s);
                    assert(forall|j: int|
                        0 <= j < old_s.len() ==> (#[trigger] old_s[j]).id != m.id);
                    assert(request_ids_unique(t)) by {
                        assert(forall|a: int|
                            0 <= a < old_s.len() ==> (#[trigger] t[a]) == old_s[a]);
                        assert(t[old_s.len() as int] == m);
                    }
                }
            },
        }
    }

    /// The record with this id, if any.
    pub fn get(&self, id: &String) -> (r: Option<Request>)
        requires
            self.wf(),
        ensures
            r is Some <==> lookup_request(self.models(), id@) is Some,
            r is Some ==> r->0@ == lookup_request(self.models(), id@)->0,
    {
        match self.find_index(id) {
            Some(i) => {
                proof {
                    lemma_lookup_request_unique(self.models(), id@, i as int);
                }
                Some(self.entries[i].clone())
            },
            None => {
                proof {
                    lemma_lookup_request_member(self.models(), id@);
                    if lookup_request(self.models(), id@) is Some {
                        let j = choose|j: int|
                            0 <= j < self.models().len() && (#[trigger] self.models()[j]).id == id@
                                && lookup_request(self.models(), id@) == Some(self.models()[j]);
                        assert(false);
                    }
                }
                None
            },
        }
    }

    /// A snapshot of every record, newest completion first: sorted by
    /// completion time descending, holding exactly the stored records.
    pub fn list(&self) -> (r: Vec<Request>)
        ensures
            r@.map_values(|q: Request| q@).to_multiset() == self.models().to_multiset(),
            forall|i: int, j: int|
                0 <= i < j < r@.len() ==> (#[trigger] r@[i])@.completed >= (
                #[trigger] r@[j])@.completed,
    {
        broadcast use vstd::seq_lib::group_to_multiset_ensures;

        let n: usize = self.entries.len();
        let mut work: Vec<Request> = Vec::new();
        let mut i: usize = 0;
        while i < n
            invariant
                n == self.entries@.len(),
                0 <= i <= n,
                work@.len() == i,
                forall|j: int| 0 <= j < i ==> (#[trigger] work@[j])@ == self.entries@[j]@,
            decreases n - i,
        {
            work.push(self.entries[i].clone());
            i = i + 1;
        }
        proof {
            assert(work@.map_values(|q: Request| q@) =~= self.models());
        }
        let mut out: Vec<Request> = Vec::new();
        while work.len() > 0
            invariant
                out@.map_values(|q: Request| q@).to_multiset().add(
                    work@.map_values(|q: Request| q@).to_multiset(),
                ) =~= self.models().to_multiset(),
                forall|i2: int, j2: int|
                    0 <= i2 < j2 < out@.len() ==> (#[trigger] out@[i2])@.completed >= (
                    #[trigger] out@[j2])@.completed,
                forall|i2: int, j2: int|
                    (0 <= i2 < out@.len() && 0 <= j2 < work@.len()) ==> (
                    #[trigger] out@[i2])@.completed >= (#[trigger] work@[j2])@.completed,
            decreases work.len(),
        {
            let m: usize = work.len();
            let mut best: usize = 0;
            let mut k: usize = 1;
            while k < m
                invariant
                    m == work@.len(),
                    0 < m,
                    0 <= best < m,
                    1 <= k <= m,
                    forall|j2: int|
                        0 <= j2 < k ==> work@[best as int]@.completed >= (
                        #[trigger] work@[j2])@.completed,
                decreases m - k,
            {
                if work[k].completed > work[best].completed {
                    best = k;
                }
                k = k + 1;
            }
            let ghost old_work = work@.map_values(|q: Request| q@);
            let ghost old_out = out@.map_values(|q: Request| q@);
            let picked = work.remove(best);
            out.push(picked);
            proof {
                broadcast use vstd::seq_lib::group_to_multiset_ensures;

                assert(old_work[best as int] == picked@);
                assert(work@.map_values(|q: Request| q@) =~= old_work.remove(best as int));
                assert(out@.map_values(|q: Request| q@) =~= old_out.push(picked@));
                assert(old_work.remove(best as int).to_multiset() =~= old_work.to_multiset()
                    .remove(picked@));
                assert(old_out.push(picked@).to_multiset() =~= old_out.to_multiset().insert(
                    picked@,
                ));
                assert(old_work.to_multiset().count(picked@) > 0) by {
                    assert(old_work.contains(picked@));
                }
                assert(out@.map_values(|q: Request| q@).to_multiset().add(
                    work@.map_values(|q: Request| q@).to_multiset(),
                ) =~= self.models().to_multiset());
                assert(forall|j2: int|
                    0 <= j2 < work@.len() ==> picked@.completed >= (
                    #[trigger] work@[j2])@.completed) by {
                    assert(forall|j2: int|
                        0 <= j2 < work@.len() ==> (#[trigger] work@[j2])@ == (if j2 < best {
                            old_work[j2]
                        } else {
                            old_work[j2 + 1]
                        }));
                }
            }
        }
        proof {
            assert(work@.map_values(|q: Request| q@) =~= Seq::<RequestModel>::empty());
            assert(work@.map_values(|q: Request| q@).to_multiset() =~= Multiset::<
                RequestModel,
            >::empty());
            assert(out@.map_values(|q: Request| q@).to_multiset() =~= self.models().to_multiset());
        }
        out
    }
}

/// A found record is a member with that id, and a missing id has no
/// member.
proof fn lemma_lookup_request_member(s: Seq<RequestModel>, id: Seq<char>)
    ensures
        lookup_request(s, id) is Some ==> exists|i: int|
            0 <= i < s.len() && (#[trigger] s[i]).id == id && lookup_request(s, id) == Some(s[i]),
        lookup_request(s, id) is None ==> forall|i: int|
            0 <= i < s.len() ==> (#[trigger] s[i]).id != id,
    decreases s.len(),
{
    if s.len() > 0 {
        lemma_lookup_request_member(s.drop_last(), id);
        if s.last().id != id {
            if lookup_request(s.drop_last(), id) is Some {
                let i = choose|i: int|
                    0 <= i < s.drop_last().len() && (#[trigger] s.drop_last()[i]).id == id
                        && lookup_request(s.drop_last(), id) == Some(s.drop_last()[i]);
                assert(s[i] == s.drop_last()[i]);
                assert(0 <= i < s.len() && s[i].id == id && lookup_request(s, id) == Some(s[i]));
            } else {
                assert forall|i: int| 0 <= i < s.len() implies (#[trigger] s[i]).id != id by {
                    if i < s.len() - 1 {
                        assert(s[i] == s.drop_last()[i]);
                    } else {
                        assert(s[i] == s.last());
                    }
                }
            }
        } else {
            assert(s[s.len() - 1] == s.last());
            assert(0 <= s.len() - 1 < s.len() && s[s.len() - 1].id == id && lookup_request(s, id)
                == Some(s[s.len() - 1]));
        }
    }
}

/// In an id-unique store, a member with id `x` is what lookup finds.
proof fn lemma_lookup_request_unique(s: Seq<RequestModel>, x: Seq<char>, i: int)
    requires
        request_ids_unique(s),
        0 <= i < s.len(),
        s[i].id == x,
    ensures
        lookup_request(s, x) == Some(s[i]),
    decreases s.len(),
{
    if i == s.len() - 1 {
        assert(s[i] == s.last());
    } else {
        assert(s.last() == s[s.len() - 1]);
        assert(s.last().id != x);
        assert(s.drop_last()[i] == s[i]);
        lemma_lookup_request_unique(s.drop_last(), x, i);
    }
}

/// Overwriting record `i` with a same-id record rebinds exactly that
/// id.
proof fn lemma_lookup_request_update(s: Seq<RequestModel>, i: int, m: RequestModel, x: Seq<char>)
    requires
        request_ids_unique(s),
        0 <= i < s.len(),
        m.id == s[i].id,
    ensures
        lookup_request(s.update(i, m), x) == (if x == m.id {
            Some(m)
        } else {
            lookup_request(s, x)
        }),
{
    let t = s.update(i, m);
    assert(request_ids_unique(t)) by {
        assert(forall|a: int| 0 <= a < t.len() && a != i ==> (#[trigger] t[a]) == s[a]);
        assert(forall|a: int| 0 <= a < t.len() ==> (#[trigger] t[a]).id == s[a].id);
    }
    if x == m.id {
        lemma_lookup_request_unique(t, x, i);
    } else {
        lemma_lookup_request_member(s, x);
        lemma_lookup_request_member(t, x);
        match lookup_request(s, x) {
            Some(_) => {
                let j = choose|j: int|
                    0 <= j < s.len() && (#[trigger] s[j]).id == x && lookup_request(s, x) == Some(
                        s[j],
                    );
                assert(t[j] == s[j]);
                lemma_lookup_request_unique(t, x, j);
            },
            None => {
                if lookup_request(t, x) is Some {
                    let j = choose|j: int|
                        0 <= j < t.len() && (#[trigger] t[j]).id == x && lookup_request(t, x)
                            == Some(t[j]);
                    assert(t[j] == s[j]);
                    assert(false);
                }
            },
        }
    }
}

} // verus!
