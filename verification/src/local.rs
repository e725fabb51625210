//! The client agent's table of live local streams: one send-only
//! channel per stream id, feeding the task that writes to the local
//! service's socket.
use crate::channel::{channel_send, clone_sender};
use crate::codec::StreamId;
use vstd::prelude::*;

verus! {

/// What a local stream's writer task is told.
#[derive(Debug, Clone)]
pub enum StreamMessage {
    /// Bytes from the server for the local socket.
    Data(Vec<u8>),
    /// Shut the local socket down.
    Close,
}

/// One live local stream: its id and the channel to its writer task.
pub struct LocalStream {
    pub id: StreamId,
    pub tx: futures::channel::mpsc::UnboundedSender<StreamMessage>,
}

/// The table of live local streams, keyed by stream id.  The channel
/// ends are opaque, so the table's model is the set of live ids.
pub struct StreamSenders {
    streams: Vec<LocalStream>,
}

impl StreamSenders {
    /// The live stream ids, in table order.
    pub closed spec fn ids(&self) -> Seq<u64> {
        self.streams@.map_values(|s: LocalStream| s.id.id)
    }

    /// At most one entry per stream id.
    pub open spec fn wf(&self) -> bool {
        forall|i: int, j: int|
            0 <= i < j < self.ids().len() ==> self.ids()[i] != self.ids()[j]
    }

    /// An empty table.
    pub fn new() -> (r: StreamSenders)
        ensures
            r.wf(),
            r.ids() == Seq::<u64>::empty(),
    {
        let r = StreamSenders { streams: Vec::new() };
        proof {
            assert(r.ids() =~= Seq::<u64>::empty());
        }
        r
    }

    /// Index of the entry with this id, if any.
    fn find_index(&self, id: u64) -> (r: Option<usize>)
        ensures
            match r {
                Some(i) => i < self.ids().len() && self.ids()[i as int] == id,
                None => !self.ids().contains(id),
            },
    {
        let n: usize = self.streams.len();
        let mut i: usize = 0;
        while i < n
            invariant
                n == self.streams@.len(),
                0 <= i <= n,
                forall|j: int| 0 <= j < i ==> (#[trigger] self.streams@[j]).id.id != id,
            decreases n - i,
        {
            if self.streams[i].id.value() == id {
                assert(self.ids()[i as int] == id);
                return Some(i);
            }
            i = i + 1;
        }
        proof {
            if self.ids().contains(id) {
                let j = choose|j: int| 0 <= j < self.ids().len() && self.ids()[j] == id;
                assert(self.streams@[j].id.id == id);
            }
        }
        None
    }

    /// Whether a stream is live.
    pub fn contains(&self, id: &StreamId) -> (r: bool)
        ensures
            r == self.ids().contains(id.id),
    {
        match self.find_index(id.value()) {
            Some(i) => {
                assert(self.ids().contains(id.id));
                true
            },
            None => false,
        }
    }

    /// Registers a stream's channel; a same-id entry is replaced.
    pub fn insert(&mut self, id: StreamId, tx: futures::channel::mpsc::UnboundedSender<
        StreamMessage,
    >)
        requires
            old(self).wf(),
        ensures
            final(self).wf(),
            forall|x: u64|
                final(self).ids().contains(x) == (x == id.id || old(self).ids().contains(x)),
    {
        let ghost old_ids = self.ids();
        match self.find_index(id.value()) {
            Some(i) => {
                self.streams.set(i, LocalStream { id, tx });
                proof {
                    assert(self.ids() =~= old_ids.update(i as int, id.id));
                    assert(old_ids[i as int] == id.id);
                    assert(self.ids() =~= old_ids);
                    assert forall|x: u64|
                        self.ids().contains(x) == (x == id.id || old_ids.contains(x)) by {
                        if x == id.id {
                            assert(self.ids()[i as int] == x);
                            assert(self.ids().contains(x));
                        }
                    }
                }
            },
            None => {
                self.streams.push(LocalStream { id, tx });
                proof {
                    assert(self.ids() =~= old_ids.push(id.id));
                    assert forall|x: u64|
                        self.ids().contains(x) == (x == id.id || old_ids.contains(x)) by {
                        assert(self.ids()[old_ids.len() as int] == id.id);
                        if old_ids.contains(x) {
                            let j = choose|j: int| 0 <= j < old_ids.len() && old_ids[j] == x;
                            assert(self.ids()[j] == x);
                        }
                        if self.ids().contains(x) && x != id.id {
                            let j = choose|j: int|
                                0 <= j < self.ids().len() && self.ids()[j] == x;
                            assert(j < old_ids.len());
                            assert(old_ids[j] == x);
                        }
                    }
                    assert forall|i: int, j: int|
                        0 <= i < j < self.ids().len() implies self.ids()[i] != self.ids()[j] by {
                        if j < old_ids.len() {
                            assert(old_ids[i] == self.ids()[i]);
                            assert(old_ids[j] == self.ids()[j]);
                        } else {
                            assert(self.ids()[j] == id.id);
                            assert(old_ids[i] == self.ids()[i]);
                            assert(!old_ids.contains(id.id));
                        }
                    }
                }
            },
        }
    }

    /// A fresh handle to a live stream's channel, if it is live.
    pub fn get(&self, id: &StreamId) -> (r: Option<
        futures::channel::mpsc::UnboundedSender<StreamMessage>,
    >)
        ensures
            r is Some <==> self.ids().contains(id.id),
    {
        match self.find_index(id.value()) {
            Some(i) => {
                assert(self.ids().contains(id.id));
                Some(clone_sender(&self.streams[i].tx))
            },
            None => None,
        }
    }

    /// Drops a stream's entry, if present.
    pub fn remove(&mut self, id: &StreamId)
        requires
            old(self).wf(),
        ensures
            final(self).wf(),
            forall|x: u64|
                final(self).ids().contains(x) == (x != id.id && old(self).ids().contains(x)),
    {
        let ghost old_ids = self.ids();
        match self.find_index(id.value()) {
            Some(i) => {
                self.streams.remove(i);
                proof {
                    assert(self.ids() =~= old_ids.remove(i as int));
                    assert forall|a: int, b: int|
                        0 <= a < b < self.ids().len() implies self.ids()[a] != self.ids()[b] by {
                        let a0 = if a < i {
                            a
                        } else {
                            a + 1
                        };
                        let b0 = if b < i {
                            b
                        } else {
                            b + 1
                        };
                        assert(self.ids()[a] == old_ids[a0]);
                        assert(self.ids()[b] == old_ids[b0]);
                    }
                    assert forall|x: u64|
                        self.ids().contains(x) == (x != id.id && old_ids.contains(x)) by {
                        if self.ids().contains(x) {
                            let j = choose|j: int|
                                0 <= j < self.ids().len() && self.ids()[j] == x;
                            let j0 = if j < i {
                                j
                            } else {
                                j + 1
                            };
                            assert(old_ids[j0] == x);
                            if x == id.id {
                                assert(old_ids[i as int] == id.id);
                            }
                        }
                        if x != id.id && old_ids.contains(x) {
                            let j = choose|j: int| 0 <= j < old_ids.len() && old_ids[j] == x;
                            if j < i {
                                assert(self.ids()[j] == x);
                            } else {
                                assert(j != i);
                                assert(self.ids()[j - 1] == x);
                            }
                        }
                    }
                }
            },
            None => {
                proof {
                    assert forall|x: u64|
                        self.ids().contains(x) == (x != id.id && old_ids.contains(x)) by {
                        if old_ids.contains(x) && x == id.id {
                            let j = choose|j: int| 0 <= j < old_ids.len() && old_ids[j] == x;
                            assert(self.streams@[j].id.id == x);
                        }
                    }
                }
            },
        }
    }

    /// Sends bytes to a live stream's writer task; reports whether the
    /// stream was live.
    pub fn forward(&self, id: &StreamId, data: Vec<u8>) -> (r: bool)
        ensures
            r == self.ids().contains(id.id),
    {
        match self.get(id) {
            Some(tx) => {
                let _delivered = channel_send(&tx, StreamMessage::Data(data));
                true
            },
            None => false,
        }
    }

    /// Tells a live stream's writer task to close, and drops the
    /// entry.
    pub fn close_stream(&mut self, id: &StreamId)
        requires
            old(self).wf(),
        ensures
            final(self).wf(),
            forall|x: u64|
                final(self).ids().contains(x) == (x != id.id && old(self).ids().contains(x)),
    {
        match self.get(id) {
            Some(tx) => {
                let _delivered = channel_send(&tx, StreamMessage::Close);
            },
            None => {},
        }
        self.remove(id);
    }
}

} // verus!
