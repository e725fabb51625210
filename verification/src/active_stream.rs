//! The active-stream table: one entry per public connection currently
//! multiplexed over a client's control channel.  An entry carries a
//! send-only handle to its client and the channel the edge writes
//! stream messages to.
use crate::channel::{clone_sender, new_unbounded};
use crate::codec::StreamId;
use crate::registry::{ClientModel, ConnectedClient};
use futures::channel::mpsc::{UnboundedReceiver, UnboundedSender};
use vstd::prelude::*;

verus! {

/// What the edge tells a stream's writer task.
#[derive(Debug, Clone)]
pub enum StreamMessage {
    /// Bytes from the client for the public socket.
    Data(Vec<u8>),
    /// The client refused the tunnel for this stream.
    TunnelRefused,
    /// No connected client serves this stream's subdomain.
    NoClientTunnel,
}

/// One multiplexed public connection.
pub struct ActiveStream {
    pub id: StreamId,
    pub client: ConnectedClient,
    pub tx: UnboundedSender<StreamMessage>,
}

/// The mathematical shape of a stream entry.
pub struct StreamModel {
    pub id: u64,
    pub client: ClientModel,
}

impl View for ActiveStream {
    type V = StreamModel;

    open spec fn view(&self) -> StreamModel {
        StreamModel { id: self.id.id, client: self.client@ }
    }
}

impl Clone for ActiveStream {
    /// Clones the entry: the model is kept, and the new handles reach
    /// the same client and the same stream channel.
    fn clone(&self) -> (r: Self)
        ensures
            r@ == self@,
    {
        ActiveStream { id: self.id, client: self.client.clone(), tx: clone_sender(&self.tx) }
    }
}

impl ActiveStream {
    /// Allocates a stream for a client: a fresh random id and a fresh
    /// message channel, whose receiving end the edge's writer drains.
    pub fn new(client: ConnectedClient) -> (r: (ActiveStream, UnboundedReceiver<StreamMessage>))
        ensures
            r.0@.client == client@,
    {
        let (tx, rx) = new_unbounded();
        (ActiveStream { id: StreamId::generate(), client, tx }, rx)
    }
}

/// First entry whose id is `id`.
pub open spec fn lookup_stream(s: Seq<StreamModel>, id: u64) -> Option<StreamModel>
    decreases s.len(),
{
    if s.len() == 0 {
        None
    } else if s.last().id == id {
        Some(s.last())
    } else {
        lookup_stream(s.drop_last(), id)
    }
}

/// No two entries share an id.
pub open spec fn stream_ids_unique(s: Seq<StreamModel>) -> bool {
    forall|i: int, j: int| 0 <= i < j < s.len() ==> (#[trigger] s[i]).id != (#[trigger] s[j]).id
}

/// A found entry is a member with that id, and a missing id has no
/// member.
proof fn lemma_lookup_stream_member(s: Seq<StreamModel>, id: u64)
    ensures
        lookup_stream(s, id) is Some ==> exists|i: int|
            0 <= i < s.len() && (#[trigger] s[i]).id == id && lookup_stream(s, id) == Some(s[i]),
        lookup_stream(s, id) is None ==> forall|i: int|
            0 <= i < s.len() ==> (#[trigger] s[i]).id != id,
    decreases s.len(),
{
    if s.len() > 0 {
        lemma_lookup_stream_member(s.drop_last(), id);
        if s.last().id != id {
            if lookup_stream(s.drop_last(), id) is Some {
                let i = choose|i: int|
                    0 <= i < s.drop_last().len() && (#[trigger] s.drop_last()[i]).id == id
                        && lookup_stream(s.drop_last(), id) == Some(s.drop_last()[i]);
                assert(s[i] == s.drop_last()[i]);
                assert(0 <= i < s.len() && s[i].id == id && lookup_stream(s, id) == Some(s[i]));
            } else {
                assert forall|i: int| 0 <= i < s.len() implies (#[trigger] s[i]).id != id by {
                    if i < s.len() - 1 {
                        assert(s[i] == s.drop_last()[i]);
                    } else {
                        assert(s[i] == s.last());
                    }
                }
            }
        } else {
            assert(s[s.len() - 1] == s.last());
            assert(0 <= s.len() - 1 < s.len() && s[s.len() - 1].id == id && lookup_stream(s, id)
                == Some(s[s.len() - 1]));
        }
    }
}

/// In an id-unique table, a member with id `x` is what lookup finds.
proof fn lemma_lookup_stream_unique(s: Seq<StreamModel>, x: u64, i: int)
    requires
        stream_ids_unique(s),
        0 <= i < s.len(),
        s[i].id == x,
    ensures
        lookup_stream(s, x) == Some(s[i]),
    decreases s.len(),
{
    if i == s.len() - 1 {
        assert(s[i] == s.last());
    } else {
        assert(s.last() == s[s.len() - 1]);
        assert(s.last().id != x);
        assert(s.drop_last()[i] == s[i]);
        lemma_lookup_stream_unique(s.drop_last(), x, i);
    }
}

/// Removing entry `i` removes exactly its id from the table.
proof fn lemma_lookup_stream_remove(s: Seq<StreamModel>, i: int, x: u64)
    requires
        stream_ids_unique(s),
        0 <= i < s.len(),
    ensures
        lookup_stream(s.remove(i), x) == (if x == s[i].id {
            None
        } else {
            lookup_stream(s, x)
        }),
        stream_ids_unique(s.remove(i)),
{
    let t = s.remove(i);
    assert(stream_ids_unique(t)) by {
        assert forall|a: int, b: int| 0 <= a < b < t.len() implies (#[trigger] t[a]).id != (
        #[trigger] t[b]).id by {
            let a0 = if a < i {
                a
            } else {
                a + 1
            };
            let b0 = if b < i {
                b
            } else {
                b + 1
            };
            assert(t[a] == s[a0]);
            assert(t[b] == s[b0]);
        }
    }
    lemma_lookup_stream_member(s, x);
    lemma_lookup_stream_member(t, x);
    if x == s[i].id {
        if lookup_stream(t, x) is Some {
            let j = choose|j: int|
                0 <= j < t.len() && (#[trigger] t[j]).id == x && lookup_stream(t, x) == Some(t[j]);
            let k = if j < i {
                j
            } else {
                j + 1
            };
            assert(t[j] == s[k]);
            assert(false);
        }
    } else {
        match lookup_stream(s, x) {
            Some(_) => {
                let j = choose|j: int|
                    0 <= j < s.len() && (#[trigger] s[j]).id == x && lookup_stream(s, x) == Some(
                        s[j],
                    );
                let k = if j < i {
                    j
                } else {
                    j - 1
                };
                assert(t[k] == s[j]);
                lemma_lookup_stream_unique(t, x, k);
            },
            None => {
                if lookup_stream(t, x) is Some {
                    let j = choose|j: int|
                        0 <= j < t.len() && (#[trigger] t[j]).id == x && lookup_stream(t, x)
                            == Some(t[j]);
                    let k = if j < i {
                        j
                    } else {
                        j + 1
                    };
                    assert(t[j] == s[k]);
                    assert(false);
                }
            },
        }
    }
}

/// The table of live streams, keyed by stream id.
pub struct ActiveStreams {
    streams: Vec<ActiveStream>,
}

impl ActiveStreams {
    /// The table's entries, as models.
    pub closed spec fn stream_models(&self) -> Seq<StreamModel> {
        self.streams@.map_values(|s: ActiveStream| s@)
    }

    /// At most one entry per stream id.
    pub open spec fn wf(&self) -> bool {
        stream_ids_unique(self.stream_models())
    }

    /// An empty table.
    pub fn new() -> (r: ActiveStreams)
        ensures
            r.wf(),
            r.stream_models() == Seq::<StreamModel>::empty(),
    {
        let r = ActiveStreams { streams: Vec::new() };
        proof {
            assert(r.stream_models() =~= Seq::<StreamModel>::empty());
        }
        r
    }

    /// How many streams are live.
    pub fn len(&self) -> (r: usize)
        ensures
            r == self.stream_models().len(),
    {
        self.streams.len()
    }

    /// Index of the entry with this id, if any.
    fn find_index(&self, id: u64) -> (r: Option<usize>)
        ensures
            match r {
                Some(i) => i < self.stream_models().len() && self.stream_models()[i as int].id
                    == id,
                None => forall|i: int|
                    0 <= i < self.stream_models().len() ==> (#[trigger] self.stream_models()[i]).id
                        != id,
            },
    {
        let n: usize = self.streams.len();
        let mut i: usize = 0;
        while i < n
            invariant
                n == self.streams@.len(),
                0 <= i <= n,
                forall|j: int| 0 <= j < i ==> (#[trigger] self.streams@[j])@.id != id,
            decreases n - i,
        {
            if self.streams[i].id.value() == id {
                assert(self.stream_models()[i as int].id == id);
                return Some(i);
            }
            i = i + 1;
        }
        assert forall|i2: int| 0 <= i2 < self.stream_models().len() implies (
        #[trigger] self.stream_models()[i2]).id != id by {
            assert(self.stream_models()[i2] == self.streams@[i2]@);
        }
        None
    }

    /// Registers a stream; an entry with the same id is replaced.
    pub fn insert(&mut self, stream: ActiveStream)
        requires
            old(self).wf(),
        ensures
            final(self).wf(),
            forall|x: u64|
                lookup_stream(final(self).stream_models(), x) == (if x == stream@.id {
                    Some(stream@)
                } else {
                    lookup_stream(old(self).stream_models(), x)
                }),
    {
        let ghost old_s = self.stream_models();
        let ghost m = stream@;
        let id_value = stream.id.value();
        match self.find_index(id_value) {
            Some(i) => {
                self.streams.set(i, stream);
                proof {
                    let t = self.stream_models();
                    assert(t =~= old_s.update(i as int, m));
                    assert forall|x: u64|
                        lookup_stream(t, x) == (if x == m.id {
                            Some(m)
                        } else {
                            lookup_stream(old_s, x)
                        }) by {
                        lemma_lookup_stream_update(old_s, i as int, m, x);
                    }
                    assert(stream_ids_unique(t)) by {
                        assert(forall|a: int|
                            0 <= a < t.len() && a != i ==> (#[trigger] t[a]) == old_s[a]);
                        assert(forall|a: int|
                            0 <= a < t.len() ==> (#[trigger] t[a]).id == old_s[a].id);
                    }
                }
            },
            None => {
                self.streams.push(stream);
                proof {
                    let t = self.stream_models();
                    assert(t =~= old_s.push(m));
                    assert(t.drop_last() =~= old_s);
                    assert(forall|j: int| 0 <= j < old_s.len() ==> (#[trigger] old_s[j]).id != m.id);
                    assert(stream_ids_unique(t)) by {
                        assert(forall|a: int| 0 <= a < old_s.len() ==> (#[trigger] t[a]) == old_s[a]);
                        assert(t[old_s.len() as int] == m);
                    }
                }
            },
        }
    }

    /// The stream with this id, if any.
    pub fn get(&self, id: &StreamId) -> (r: Option<ActiveStream>)
        requires
            self.wf(),
        ensures
            r is Some <==> lookup_stream(self.stream_models(), id.id) is Some,
            r is Some ==> r->0@ == lookup_stream(self.stream_models(), id.id)->0,
    {
        match self.find_index(id.value()) {
            Some(i) => {
                proof {
                    lemma_lookup_stream_unique(self.stream_models(), id.id, i as int);
                }
                Some(self.streams[i].clone())
            },
            None => {
                proof {
                    lemma_lookup_stream_member(self.stream_models(), id.id);
                    if lookup_stream(self.stream_models(), id.id) is Some {
                        let j = choose|j: int|
                            0 <= j < self.stream_models().len() && (
                            #[trigger] self.stream_models()[j]).id == id.id && lookup_stream(
                                self.stream_models(),
                                id.id,
                            ) == Some(self.stream_models()[j]);
                        assert(false);
                    }
                }
                None
            },
        }
    }

    /// Drops the stream with this id, if present.
    pub fn remove(&mut self, id: &StreamId)
        requires
            old(self).wf(),
        ensures
            final(self).wf(),
            forall|x: u64|
                lookup_stream(final(self).stream_models(), x) == (if x == id.id {
                    None
                } else {
                    lookup_stream(old(self).stream_models(), x)
                }),
    {
        let ghost old_s = self.stream_models();
        match self.find_index(id.value()) {
            Some(i) => {
                self.streams.remove(i);
                proof {
                    assert(self.stream_models() =~= old_s.remove(i as int));
                    assert forall|x: u64|
                        lookup_stream(self.stream_models(), x) == (if x == id.id {
                            None
                        } else {
                            lookup_stream(old_s, x)
                        }) by {
                        lemma_lookup_stream_remove(old_s, i as int, x);
                    }
                }
            },
            None => {
                proof {
                    lemma_lookup_stream_member(old_s, id.id);
                    if lookup_stream(old_s, id.id) is Some {
                        let j = choose|j: int|
                            0 <= j < old_s.len() && (#[trigger] old_s[j]).id == id.id
                                && lookup_stream(old_s, id.id) == Some(old_s[j]);
                        assert(false);
                    }
                }
            },
        }
    }
}

/// Overwriting entry `i` with a same-id entry rebinds exactly that id.
proof fn lemma_lookup_stream_update(s: Seq<StreamModel>, i: int, m: StreamModel, x: u64)
    requires
        stream_ids_unique(s),
        0 <= i < s.len(),
        m.id == s[i].id,
    ensures
        lookup_stream(s.update(i, m), x) == (if x == m.id {
            Some(m)
        } else {
            lookup_stream(s, x)
        }),
{
    let t = s.update(i, m);
    assert(stream_ids_unique(t)) by {
        assert(forall|a: int| 0 <= a < t.len() && a != i ==> (#[trigger] t[a]) == s[a]);
        assert(forall|a: int| 0 <= a < t.len() ==> (#[trigger] t[a]).id == s[a].id);
    }
    if x == m.id {
        lemma_lookup_stream_unique(t, x, i);
    } else {
        lemma_lookup_stream_member(s, x);
        lemma_lookup_stream_member(t, x);
        match lookup_stream(s, x) {
            Some(_) => {
                let j = choose|j: int|
                    0 <= j < s.len() && (#[trigger] s[j]).id == x && lookup_stream(s, x) == Some(
                        s[j],
                    );
                assert(t[j] == s[j]);
                lemma_lookup_stream_unique(t, x, j);
            },
            None => {
                if lookup_stream(t, x) is Some {
                    let j = choose|j: int|
                        0 <= j < t.len() && (#[trigger] t[j]).id == x && lookup_stream(t, x)
                            == Some(t[j]);
                    assert(t[j] == s[j]);
                    assert(false);
                }
            },
        }
    }
}

} // verus!
