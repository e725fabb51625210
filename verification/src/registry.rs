//! The server's connection registry: who is connected, and which
//! subdomain each client serves.  Two indexes — by client id and by
//! host — with the host index proved to hold at most one entry per
//! subdomain, and their mutual agreement proved for conflict-free use.
use crate::channel::{channel_close, clone_sender};
use crate::codec::ControlPacket;
use crate::ids::ClientId;
use futures::channel::mpsc::UnboundedSender;
use vstd::prelude::*;

verus! {

/// One connected client: its identity, the subdomain it serves,
/// whether it authenticated anonymously (by reconnect token), and the
/// send-only capability for its control channel.
pub struct ConnectedClient {
    pub id: ClientId,
    pub host: String,
    pub is_anonymous: bool,
    pub tx: UnboundedSender<ControlPacket>,
}

/// The mathematical shape of a registry entry: the channel capability
/// carries no specification, so the model is identity, host and kind.
pub struct ClientModel {
    pub id: Seq<char>,
    pub host: Seq<char>,
    pub is_anonymous: bool,
}

impl View for ConnectedClient {
    type V = ClientModel;

    open spec fn view(&self) -> ClientModel {
        ClientModel { id: self.id@, host: self.host@, is_anonymous: self.is_anonymous }
    }
}

impl Clone for ConnectedClient {
    /// Clones the entry: the model is kept, and the new channel handle
    /// reaches the same client.
    fn clone(&self) -> (r: Self)
        ensures
            r@ == self@,
    {
        ConnectedClient {
            id: self.id.clone(),
            host: self.host.clone(),
            is_anonymous: self.is_anonymous,
            tx: clone_sender(&self.tx),
        }
    }
}

/// First entry (from the newest end) whose id is `id`.
pub open spec fn lookup_id(s: Seq<ClientModel>, id: Seq<char>) -> Option<ClientModel>
    decreases s.len(),
{
    if s.len() == 0 {
        None
    } else if s.last().id == id {
        Some(s.last())
    } else {
        lookup_id(s.drop_last(), id)
    }
}

/// First entry (from the newest end) whose host is `h`.
pub open spec fn lookup_host(s: Seq<ClientModel>, h: Seq<char>) -> Option<ClientModel>
    decreases s.len(),
{
    if s.len() == 0 {
        None
    } else if s.last().host == h {
        Some(s.last())
    } else {
        lookup_host(s.drop_last(), h)
    }
}

/// No two entries share an id.
pub open spec fn ids_unique(s: Seq<ClientModel>) -> bool {
    forall|i: int, j: int| 0 <= i < j < s.len() ==> (#[trigger] s[i]).id != (#[trigger] s[j]).id
}

/// No two entries share a host.
pub open spec fn hosts_unique(s: Seq<ClientModel>) -> bool {
    forall|i: int, j: int| 0 <= i < j < s.len() ==> (#[trigger] s[i]).host != (#[trigger] s[j]).host
}

/// A found entry is a member with that key, and a missing key has no
/// member.
proof fn lemma_lookup_id_member(s: Seq<ClientModel>, id: Seq<char>)
    ensures
        lookup_id(s, id) is Some ==> exists|i: int|
            0 <= i < s.len() && (#[trigger] s[i]).id == id && lookup_id(s, id) == Some(s[i]),
        lookup_id(s, id) is None ==> forall|i: int|
            0 <= i < s.len() ==> (#[trigger] s[i]).id != id,
    decreases s.len(),
{
    if s.len() > 0 {
        lemma_lookup_id_member(s.drop_last(), id);
        if s.last().id != id {
            if lookup_id(s.drop_last(), id) is Some {
                let i = choose|i: int|
                    0 <= i < s.drop_last().len() && (#[trigger] s.drop_last()[i]).id == id
                        && lookup_id(s.drop_last(), id) == Some(s.drop_last()[i]);
                assert(s[i] == s.drop_last()[i]);
                assert(0 <= i < s.len() && s[i].id == id && lookup_id(s, id) == Some(s[i]));
            } else {
                assert forall|i: int| 0 <= i < s.len() implies (#[trigger] s[i]).id != id by {
                    if i < s.len() - 1 {
                        assert(s[i] == s.drop_last()[i]);
                    } else {
                        assert(s[i] == s.last());
                    }
                }
            }
        } else {
            assert(s[s.len() - 1] == s.last());
            assert(0 <= s.len() - 1 < s.len() && s[s.len() - 1].id == id && lookup_id(s, id)
                == Some(s[s.len() - 1]));
        }
    }
}

/// Same, for the host index.
proof fn lemma_lookup_host_member(s: Seq<ClientModel>, h: Seq<char>)
    ensures
        lookup_host(s, h) is Some ==> exists|i: int|
            0 <= i < s.len() && (#[trigger] s[i]).host == h && lookup_host(s, h) == Some(s[i]),
        lookup_host(s, h) is None ==> forall|i: int|
            0 <= i < s.len() ==> (#[trigger] s[i]).host != h,
    decreases s.len(),
{
    if s.len() > 0 {
        lemma_lookup_host_member(s.drop_last(), h);
        if s.last().host != h {
            if lookup_host(s.drop_last(), h) is Some {
                let i = choose|i: int|
                    0 <= i < s.drop_last().len() && (#[trigger] s.drop_last()[i]).host == h
                        && lookup_host(s.drop_last(), h) == Some(s.drop_last()[i]);
                assert(s[i] == s.drop_last()[i]);
                assert(0 <= i < s.len() && s[i].host == h && lookup_host(s, h) == Some(s[i]));
            } else {
                assert forall|i: int| 0 <= i < s.len() implies (#[trigger] s[i]).host != h by {
                    if i < s.len() - 1 {
                        assert(s[i] == s.drop_last()[i]);
                    } else {
                        assert(s[i] == s.last());
                    }
                }
            }
        } else {
            assert(s[s.len() - 1] == s.last());
            assert(0 <= s.len() - 1 < s.len() && s[s.len() - 1].host == h && lookup_host(s, h)
                == Some(s[s.len() - 1]));
        }
    }
}

/// In a host-unique index, a member with host `h` is what lookup
/// finds.
proof fn lemma_lookup_host_unique(s: Seq<ClientModel>, h: Seq<char>, i: int)
    requires
        hosts_unique(s),
        0 <= i < s.len(),
        s[i].host == h,
    ensures
        lookup_host(s, h) == Some(s[i]),
    decreases s.len(),
{
    if i == s.len() - 1 {
        assert(s[i] == s.last());
    } else {
        assert(s.last() == s[s.len() - 1]);
        assert(s.last().host != h);
        assert(s.drop_last()[i] == s[i]);
        lemma_lookup_host_unique(s.drop_last(), h, i);
    }
}

/// In an id-unique index, a member with id `x` is what lookup finds.
proof fn lemma_lookup_id_unique(s: Seq<ClientModel>, x: Seq<char>, i: int)
    requires
        ids_unique(s),
        0 <= i < s.len(),
        s[i].id == x,
    ensures
        lookup_id(s, x) == Some(s[i]),
    decreases s.len(),
{
    if i == s.len() - 1 {
        assert(s[i] == s.last());
    } else {
        assert(s.last() == s[s.len() - 1]);
        assert(s.last().id != x);
        assert(s.drop_last()[i] == s[i]);
        lemma_lookup_id_unique(s.drop_last(), x, i);
    }
}

/// Removing entry `i` removes exactly its key from the host index.
proof fn lemma_lookup_host_remove(s: Seq<ClientModel>, i: int, x: Seq<char>)
    requires
        hosts_unique(s),
        0 <= i < s.len(),
    ensures
        lookup_host(s.remove(i), x) == (if x == s[i].host {
            None
        } else {
            lookup_host(s, x)
        }),
    decreases s.len(),
{
    lemma_lookup_host_member(s, x);
    lemma_lookup_host_member(s.remove(i), x);
    if x == s[i].host {
        if lookup_host(s.remove(i), x) is Some {
            let j = choose|j: int|
                0 <= j < s.remove(i).len() && (#[trigger] s.remove(i)[j]).host == x && lookup_host(
                    s.remove(i),
                    x,
                ) == Some(s.remove(i)[j]);
            let k = if j < i {
                j
            } else {
                j + 1
            };
            assert(s.remove(i)[j] == s[k]);
            assert(false);
        }
    } else {
        match lookup_host(s, x) {
            Some(m) => {
                let j = choose|j: int|
                    0 <= j < s.len() && (#[trigger] s[j]).host == x && lookup_host(s, x) == Some(
                        s[j],
                    );
                let k = if j < i {
                    j
                } else {
                    j - 1
                };
                assert(s.remove(i)[k] == s[j]);
                assert(hosts_unique(s.remove(i))) by {
                    lemma_unique_remove(s, i);
                }
                lemma_lookup_host_unique(s.remove(i), x, k);
            },
            None => {
                if lookup_host(s.remove(i), x) is Some {
                    let j = choose|j: int|
                        0 <= j < s.remove(i).len() && (#[trigger] s.remove(i)[j]).host == x
                            && lookup_host(s.remove(i), x) == Some(s.remove(i)[j]);
                    let k = if j < i {
                        j
                    } else {
                        j + 1
                    };
                    assert(s.remove(i)[j] == s[k]);
                    assert(false);
                }
            },
        }
    }
}

/// Removing entry `i` removes exactly its key from the id index.
proof fn lemma_lookup_id_remove(s: Seq<ClientModel>, i: int, x: Seq<char>)
    requires
        ids_unique(s),
        0 <= i < s.len(),
    ensures
        lookup_id(s.remove(i), x) == (if x == s[i].id {
            None
        } else {
            lookup_id(s, x)
        }),
    decreases s.len(),
{
    lemma_lookup_id_member(s, x);
    lemma_lookup_id_member(s.remove(i), x);
    if x == s[i].id {
        if lookup_id(s.remove(i), x) is Some {
            let j = choose|j: int|
                0 <= j < s.remove(i).len() && (#[trigger] s.remove(i)[j]).id == x && lookup_id(
                    s.remove(i),
                    x,
                ) == Some(s.remove(i)[j]);
            let k = if j < i {
                j
            } else {
                j + 1
            };
            assert(s.remove(i)[j] == s[k]);
            assert(false);
        }
    } else {
        match lookup_id(s, x) {
            Some(m) => {
                let j = choose|j: int|
                    0 <= j < s.len() && (#[trigger] s[j]).id == x && lookup_id(s, x) == Some(s[j]);
                let k = if j < i {
                    j
                } else {
                    j - 1
                };
                assert(s.remove(i)[k] == s[j]);
                assert(ids_unique(s.remove(i))) by {
                    lemma_unique_remove(s, i);
                }
                lemma_lookup_id_unique(s.remove(i), x, k);
            },
            None => {
                if lookup_id(s.remove(i), x) is Some {
                    let j = choose|j: int|
                        0 <= j < s.remove(i).len() && (#[trigger] s.remove(i)[j]).id == x
                            && lookup_id(s.remove(i), x) == Some(s.remove(i)[j]);
                    let k = if j < i {
                        j
                    } else {
                        j + 1
                    };
                    assert(s.remove(i)[j] == s[k]);
                    assert(false);
                }
            },
        }
    }
}

/// Removal keeps both uniqueness properties.
proof fn lemma_unique_remove(s: Seq<ClientModel>, i: int)
    requires
        0 <= i < s.len(),
    ensures
        ids_unique(s) ==> ids_unique(s.remove(i)),
        hosts_unique(s) ==> hosts_unique(s.remove(i)),
{
    let t = s.remove(i);
    assert forall|a: int, b: int| 0 <= a < b < t.len() implies ((ids_unique(s) ==> (
    #[trigger] t[a]).id != (#[trigger] t[b]).id) && (hosts_unique(s) ==> t[a].host
        != t[b].host)) by {
        let a0 = if a < i {
            a
        } else {
            a + 1
        };
        let b0 = if b < i {
            b
        } else {
            b + 1
        };
        assert(t[a] == s[a0]);
        assert(t[b] == s[b0]);
    }
}

/// What lookup finds carries the key it was asked for.
pub proof fn lemma_lookup_host_key(s: Seq<ClientModel>, h: Seq<char>)
    ensures
        lookup_host(s, h) is Some ==> lookup_host(s, h)->0.host == h,
    decreases s.len(),
{
    if s.len() > 0 && s.last().host != h {
        lemma_lookup_host_key(s.drop_last(), h);
    }
}

/// What lookup finds carries the id it was asked for.
pub proof fn lemma_lookup_id_key(s: Seq<ClientModel>, x: Seq<char>)
    ensures
        lookup_id(s, x) is Some ==> lookup_id(s, x)->0.id == x,
    decreases s.len(),
{
    if s.len() > 0 && s.last().id != x {
        lemma_lookup_id_key(s.drop_last(), x);
    }
}

/// Overwriting entry `i` with a same-key entry rebinds exactly that
/// key in the host index.
proof fn lemma_lookup_host_update(s: Seq<ClientModel>, i: int, m: ClientModel, x: Seq<char>)
    requires
        hosts_unique(s),
        0 <= i < s.len(),
        m.host == s[i].host,
    ensures
        lookup_host(s.update(i, m), x) == (if x == m.host {
            Some(m)
        } else {
            lookup_host(s, x)
        }),
{
    let t = s.update(i, m);
    assert(hosts_unique(t)) by {
        assert(forall|a: int| 0 <= a < t.len() && a != i ==> (#[trigger] t[a]) == s[a]);
    }
    if x == m.host {
        lemma_lookup_host_unique(t, x, i);
    } else {
        lemma_lookup_host_member(s, x);
        lemma_lookup_host_member(t, x);
        match lookup_host(s, x) {
            Some(_) => {
                let j = choose|j: int|
                    0 <= j < s.len() && (#[trigger] s[j]).host == x && lookup_host(s, x) == Some(
                        s[j],
                    );
                assert(t[j] == s[j]);
                lemma_lookup_host_unique(t, x, j);
            },
            None => {
                if lookup_host(t, x) is Some {
                    let j = choose|j: int|
                        0 <= j < t.len() && (#[trigger] t[j]).host == x && lookup_host(t, x)
                            == Some(t[j]);
                    assert(t[j] == s[j]);
                    assert(false);
                }
            },
        }
    }
}

/// Same, for the id index.
proof fn lemma_lookup_id_update(s: Seq<ClientModel>, i: int, m: ClientModel, x: Seq<char>)
    requires
        ids_unique(s),
        0 <= i < s.len(),
        m.id == s[i].id,
    ensures
        lookup_id(s.update(i, m), x) == (if x == m.id {
            Some(m)
        } else {
            lookup_id(s, x)
        }),
{
    let t = s.update(i, m);
    assert(ids_unique(t)) by {
        assert(forall|a: int| 0 <= a < t.len() && a != i ==> (#[trigger] t[a]) == s[a]);
    }
    if x == m.id {
        lemma_lookup_id_unique(t, x, i);
    } else {
        lemma_lookup_id_member(s, x);
        lemma_lookup_id_member(t, x);
        match lookup_id(s, x) {
            Some(_) => {
                let j = choose|j: int|
                    0 <= j < s.len() && (#[trigger] s[j]).id == x && lookup_id(s, x) == Some(s[j]);
                assert(t[j] == s[j]);
                lemma_lookup_id_unique(t, x, j);
            },
            None => {
                if lookup_id(t, x) is Some {
                    let j = choose|j: int|
                        0 <= j < t.len() && (#[trigger] t[j]).id == x && lookup_id(t, x) == Some(
                            t[j],
                        );
                    assert(t[j] == s[j]);
                    assert(false);
                }
            },
        }
    }
}

/// The models of a sequence of registry entries.
pub open spec fn models(s: Seq<ConnectedClient>) -> Seq<ClientModel> {
    s.map_values(|c: ConnectedClient| c@)
}

/// Index of the first entry serving host `h`, if any.
fn find_host_index(v: &Vec<ConnectedClient>, h: &String) -> (r: Option<usize>)
    ensures
        match r {
            Some(i) => i < v@.len() && (#[trigger] v@[i as int])@.host == h@,
            None => forall|i: int| 0 <= i < v@.len() ==> (#[trigger] v@[i])@.host != h@,
        },
{
    let n: usize = v.len();
    let mut i: usize = 0;
    while i < n
        invariant
            n == v@.len(),
            0 <= i <= n,
            forall|j: int| 0 <= j < i ==> (#[trigger] v@[j])@.host != h@,
        decreases n - i,
    {
        if v[i].host == *h {
            return Some(i);
        }
        i = i + 1;
    }
    None
}

/// Index of the entry of client `id`, if any.
fn find_id_index(v: &Vec<ConnectedClient>, id: &ClientId) -> (r: Option<usize>)
    ensures
        match r {
            Some(i) => i < v@.len() && (#[trigger] v@[i as int])@.id == id@,
            None => forall|i: int| 0 <= i < v@.len() ==> (#[trigger] v@[i])@.id != id@,
        },
{
    let n: usize = v.len();
    let mut i: usize = 0;
    while i < n
        invariant
            n == v@.len(),
            0 <= i <= n,
            forall|j: int| 0 <= j < i ==> (#[trigger] v@[j])@.id != id@,
        decreases n - i,
    {
        if v[i].id == *id {
            return Some(i);
        }
        i = i + 1;
    }
    None
}

/// The registry: every connected client, indexed by id and by host.
pub struct Connections {
    clients: Vec<ConnectedClient>,
    hosts: Vec<ConnectedClient>,
}

impl Connections {
    /// The id index, as a sequence of entry models.
    pub closed spec fn client_models(&self) -> Seq<ClientModel> {
        models(self.clients@)
    }

    /// The host index, as a sequence of entry models.
    pub closed spec fn host_models(&self) -> Seq<ClientModel> {
        models(self.hosts@)
    }

    /// Structural invariant: each index holds at most one entry per
    /// key.  The host half is the single-owner-per-subdomain rule.
    pub open spec fn wf(&self) -> bool {
        ids_unique(self.client_models()) && hosts_unique(self.host_models())
    }

    /// The two indexes agree: an entry found under a host is exactly
    /// the entry of its client id, and an entry found under an id is
    /// exactly the entry of its host.
    pub open spec fn consistent(&self) -> bool {
        &&& forall|h: Seq<char>|
            (#[trigger] lookup_host(self.host_models(), h)) is Some ==> lookup_id(
                self.client_models(),
                lookup_host(self.host_models(), h)->0.id,
            ) == Some(lookup_host(self.host_models(), h)->0)
        &&& forall|x: Seq<char>|
            (#[trigger] lookup_id(self.client_models(), x)) is Some ==> lookup_host(
                self.host_models(),
                lookup_id(self.client_models(), x)->0.host,
            ) == Some(lookup_id(self.client_models(), x)->0)
    }

    /// An empty registry.
    pub fn new() -> (r: Connections)
        ensures
            r.wf(),
            r.consistent(),
            r.client_models() == Seq::<ClientModel>::empty(),
            r.host_models() == Seq::<ClientModel>::empty(),
    {
        let r = Connections { clients: Vec::new(), hosts: Vec::new() };
        proof {
            assert(r.client_models() =~= Seq::<ClientModel>::empty());
            assert(r.host_models() =~= Seq::<ClientModel>::empty());
        }
        r
    }

    /// Registers a client under both its id and its host; either key
    /// already present is rebound to the new entry (re-bind wins).
    /// Rebinds that do not steal another client's key keep the two
    /// indexes in agreement.
    pub fn add(&mut self, client: ConnectedClient)
        requires
            old(self).wf(),
        ensures
            final(self).wf(),
            forall|x: Seq<char>|
                lookup_id(final(self).client_models(), x) == (if x == client@.id {
                    Some(client@)
                } else {
                    lookup_id(old(self).client_models(), x)
                }),
            forall|h: Seq<char>|
                lookup_host(final(self).host_models(), h) == (if h == client@.host {
                    Some(client@)
                } else {
                    lookup_host(old(self).host_models(), h)
                }),
            final(self).client_models().len() <= old(self).client_models().len() + 1,
            final(self).host_models().len() <= old(self).host_models().len() + 1,
            (old(self).consistent() && (lookup_host(old(self).host_models(), client@.host) is None
                || lookup_host(old(self).host_models(), client@.host)->0.id == client@.id) && (
            lookup_id(old(self).client_models(), client@.id) is None || lookup_id(
                old(self).client_models(),
                client@.id,
            )->0.host == client@.host)) ==> final(self).consistent(),
    {
        let ghost old_c = self.client_models();
        let ghost old_h = self.host_models();
        let ghost m = client@;
        let for_hosts = client.clone();
        match find_id_index(&self.clients, &client.id) {
            Some(i) => {
                self.clients.set(i, client);
                proof {
                    assert(self.client_models() =~= old_c.update(i as int, m));
                    assert forall|x: Seq<char>|
                        lookup_id(self.client_models(), x) == (if x == m.id {
                            Some(m)
                        } else {
                            lookup_id(old_c, x)
                        }) by {
                        lemma_lookup_id_update(old_c, i as int, m, x);
                    }
                    assert(ids_unique(self.client_models())) by {
                        let t = self.client_models();
                        assert(forall|a: int|
                            0 <= a < t.len() && a != i ==> (#[trigger] t[a]) == old_c[a]);
                        assert(forall|a: int|
                            0 <= a < t.len() ==> (#[trigger] t[a]).id == old_c[a].id);
                    }
                }
            },
            None => {
                self.clients.push(client);
                proof {
                    assert(self.client_models() =~= old_c.push(m));
                    assert(self.client_models().drop_last() =~= old_c);
                    assert(forall|j: int| 0 <= j < old_c.len() ==> (#[trigger] old_c[j]).id != m.id);
                    assert forall|x: Seq<char>|
                        lookup_id(self.client_models(), x) == (if x == m.id {
                            Some(m)
                        } else {
                            lookup_id(old_c, x)
                        }) by {}
                    assert(ids_unique(self.client_models())) by {
                        assert(forall|a: int|
                            0 <= a < old_c.len() ==> (#[trigger] self.client_models()[a])
                                == old_c[a]);
                        assert(self.client_models()[old_c.len() as int] == m);
                    }
                }
            },
        }
        match find_host_index(&self.hosts, &for_hosts.host) {
            Some(i) => {
                self.hosts.set(i, for_hosts);
                proof {
                    assert(self.host_models() =~= old_h.update(i as int, m));
                    assert forall|h: Seq<char>|
                        lookup_host(self.host_models(), h) == (if h == m.host {
                            Some(m)
                        } else {
                            lookup_host(old_h, h)
                        }) by {
                        lemma_lookup_host_update(old_h, i as int, m, h);
                    }
                    assert(hosts_unique(self.host_models())) by {
                        let t = self.host_models();
                        assert(forall|a: int|
                            0 <= a < t.len() && a != i ==> (#[trigger] t[a]) == old_h[a]);
                        assert(forall|a: int|
                            0 <= a < t.len() ==> (#[trigger] t[a]).host == old_h[a].host);
                    }
                }
            },
            None => {
                self.hosts.push(for_hosts);
                proof {
                    assert(self.host_models() =~= old_h.push(m));
                    assert(self.host_models().drop_last() =~= old_h);
                    assert(forall|j: int|
                        0 <= j < old_h.len() ==> (#[trigger] old_h[j]).host != m.host);
                    assert forall|h: Seq<char>|
                        lookup_host(self.host_models(), h) == (if h == m.host {
                            Some(m)
                        } else {
                            lookup_host(old_h, h)
                        }) by {}
                    assert(hosts_unique(self.host_models())) by {
                        assert(forall|a: int|
                            0 <= a < old_h.len() ==> (#[trigger] self.host_models()[a])
                                == old_h[a]);
                        assert(self.host_models()[old_h.len() as int] == m);
                    }
                }
            },
        }
        proof {
            if old(self).consistent() && (lookup_host(old_h, m.host) is None || lookup_host(
                old_h,
                m.host,
            )->0.id == m.id) && (lookup_id(old_c, m.id) is None || lookup_id(old_c, m.id)->0.host
                == m.host) {
                assert forall|h: Seq<char>|
                    (#[trigger] lookup_host(self.host_models(), h)) is Some implies lookup_id(
                    self.client_models(),
                    lookup_host(self.host_models(), h)->0.id,
                ) == Some(lookup_host(self.host_models(), h)->0) by {
                    let e = lookup_host(self.host_models(), h)->0;
                    if h == m.host {
                        assert(e == m);
                    } else {
                        assert(lookup_host(old_h, h) == Some(e));
                        lemma_lookup_host_key(old_h, h);
                        if e.id == m.id {
                            assert(lookup_id(old_c, e.id) == Some(e));
                            assert(e.host == m.host);
                            assert(false);
                        }
                    }
                }
                assert forall|x: Seq<char>|
                    (#[trigger] lookup_id(self.client_models(), x)) is Some implies lookup_host(
                    self.host_models(),
                    lookup_id(self.client_models(), x)->0.host,
                ) == Some(lookup_id(self.client_models(), x)->0) by {
                    let e = lookup_id(self.client_models(), x)->0;
                    if x == m.id {
                        assert(e == m);
                    } else {
                        assert(lookup_id(old_c, x) == Some(e));
                        lemma_lookup_id_key(old_c, x);
                        if e.host == m.host {
                            assert(lookup_host(old_h, e.host) == Some(e));
                            assert(e.id == m.id);
                            assert(false);
                        }
                    }
                }
            }
        }
    }

    /// Re-inserts a live client under its host, refreshing the host
    /// index; the id index is untouched.  Refreshing the registered
    /// client keeps the indexes in agreement.
    pub fn update_host(&mut self, client: &ConnectedClient)
        requires
            old(self).wf(),
        ensures
            final(self).wf(),
            final(self).client_models() == old(self).client_models(),
            forall|h: Seq<char>|
                lookup_host(final(self).host_models(), h) == (if h == client@.host {
                    Some(client@)
                } else {
                    lookup_host(old(self).host_models(), h)
                }),
            (old(self).consistent() && lookup_id(old(self).client_models(), client@.id) == Some(
                client@,
            )) ==> final(self).consistent(),
    {
        let ghost old_c = self.client_models();
        let ghost old_h = self.host_models();
        let ghost m = client@;
        let entry = client.clone();
        match find_host_index(&self.hosts, &entry.host) {
            Some(i) => {
                self.hosts.set(i, entry);
                proof {
                    assert(self.host_models() =~= old_h.update(i as int, m));
                    assert forall|h: Seq<char>|
                        lookup_host(self.host_models(), h) == (if h == m.host {
                            Some(m)
                        } else {
                            lookup_host(old_h, h)
                        }) by {
                        lemma_lookup_host_update(old_h, i as int, m, h);
                    }
                    assert(hosts_unique(self.host_models())) by {
                        let t = self.host_models();
                        assert(forall|a: int|
                            0 <= a < t.len() && a != i ==> (#[trigger] t[a]) == old_h[a]);
                        assert(forall|a: int|
                            0 <= a < t.len() ==> (#[trigger] t[a]).host == old_h[a].host);
                    }
                }
            },
            None => {
                self.hosts.push(entry);
                proof {
                    assert(self.host_models() =~= old_h.push(m));
                    assert(self.host_models().drop_last() =~= old_h);
                    assert(forall|j: int|
                        0 <= j < old_h.len() ==> (#[trigger] old_h[j]).host != m.host);
                    assert forall|h: Seq<char>|
                        lookup_host(self.host_models(), h) == (if h == m.host {
                            Some(m)
                        } else {
                            lookup_host(old_h, h)
                        }) by {}
                    assert(hosts_unique(self.host_models())) by {
                        assert(forall|a: int|
                            0 <= a < old_h.len() ==> (#[trigger] self.host_models()[a])
                                == old_h[a]);
                        assert(self.host_models()[old_h.len() as int] == m);
                    }
                }
            },
        }
        proof {
            if old(self).consistent() && lookup_id(old_c, m.id) == Some(m) {
                assert forall|h: Seq<char>|
                    (#[trigger] lookup_host(self.host_models(), h)) is Some implies lookup_id(
                    self.client_models(),
                    lookup_host(self.host_models(), h)->0.id,
                ) == Some(lookup_host(self.host_models(), h)->0) by {
                    let e = lookup_host(self.host_models(), h)->0;
                    if h == m.host {
                        assert(e == m);
                    } else {
                        assert(lookup_host(old_h, h) == Some(e));
                    }
                }
                assert forall|x: Seq<char>|
                    (#[trigger] lookup_id(self.client_models(), x)) is Some implies lookup_host(
                    self.host_models(),
                    lookup_id(self.client_models(), x)->0.host,
                ) == Some(lookup_id(self.client_models(), x)->0) by {
                    let e = lookup_id(old_c, x)->0;
                    assert(lookup_host(old_h, e.host) == Some(e));
                    if e.host == m.host {
                        assert(lookup_host(old_h, m.host) == Some(m));
                    }
                }
            }
        }
    }

    /// Removes a client: closes its channel, releases its host entry
    /// only if that entry is still its own (a newer connection may
    /// have taken the subdomain over), and drops its id entry.
    /// Removal is idempotent and keeps the indexes in agreement when
    /// the id entry, if any, is the client itself.
    pub fn remove(&mut self, client: &ConnectedClient)
        requires
            old(self).wf(),
        ensures
            final(self).wf(),
            forall|x: Seq<char>|
                lookup_id(final(self).client_models(), x) == (if x == client@.id {
                    None
                } else {
                    lookup_id(old(self).client_models(), x)
                }),
            forall|h: Seq<char>|
                lookup_host(final(self).host_models(), h) == (if h == client@.host && lookup_host(
                    old(self).host_models(),
                    h,
                ) is Some && lookup_host(old(self).host_models(), h)->0.id == client@.id {
                    None
                } else {
                    lookup_host(old(self).host_models(), h)
                }),
            (old(self).consistent() && (lookup_id(old(self).client_models(), client@.id) is None
                || lookup_id(old(self).client_models(), client@.id) == Some(client@)))
                ==> final(self).consistent(),
    {
        let ghost old_c = self.client_models();
        let ghost old_h = self.host_models();
        let ghost m = client@;
        crate::channel::channel_close(&client.tx);
        match find_host_index(&self.hosts, &client.host) {
            Some(i) => {
                proof {
                    lemma_lookup_host_unique(old_h, m.host, i as int);
                }
                if self.hosts[i].id == client.id {
                    self.hosts.remove(i);
                    proof {
                        assert(self.host_models() =~= old_h.remove(i as int));
                        assert forall|h: Seq<char>|
                            lookup_host(self.host_models(), h) == (if h == m.host {
                                None
                            } else {
                                lookup_host(old_h, h)
                            }) by {
                            lemma_lookup_host_remove(old_h, i as int, h);
                        }
                        lemma_unique_remove(old_h, i as int);
                    }
                }
            },
            None => {
                proof {
                    lemma_lookup_host_member(old_h, m.host);
                    if lookup_host(old_h, m.host) is Some {
                        let j = choose|j: int|
                            0 <= j < old_h.len() && (#[trigger] old_h[j]).host == m.host
                                && lookup_host(old_h, m.host) == Some(old_h[j]);
                        assert(false);
                    }
                }
            },
        }
        match find_id_index(&self.clients, &client.id) {
            Some(j) => {
                proof {
                    lemma_lookup_id_unique(old_c, m.id, j as int);
                }
                self.clients.remove(j);
                proof {
                    assert(self.client_models() =~= old_c.remove(j as int));
                    assert forall|x: Seq<char>|
                        lookup_id(self.client_models(), x) == (if x == m.id {
                            None
                        } else {
                            lookup_id(old_c, x)
                        }) by {
                        lemma_lookup_id_remove(old_c, j as int, x);
                    }
                    lemma_unique_remove(old_c, j as int);
                }
            },
            None => {
                proof {
                    lemma_lookup_id_member(old_c, m.id);
                    if lookup_id(old_c, m.id) is Some {
                        let j = choose|j: int|
                            0 <= j < old_c.len() && (#[trigger] old_c[j]).id == m.id && lookup_id(
                                old_c,
                                m.id,
                            ) == Some(old_c[j]);
                        assert(false);
                    }
                }
            },
        }
        proof {
            if old(self).consistent() && (lookup_id(old_c, m.id) is None || lookup_id(old_c, m.id)
                == Some(m)) {
                assert forall|h: Seq<char>|
                    (#[trigger] lookup_host(self.host_models(), h)) is Some implies lookup_id(
                    self.client_models(),
                    lookup_host(self.host_models(), h)->0.id,
                ) == Some(lookup_host(self.host_models(), h)->0) by {
                    let e = lookup_host(self.host_models(), h)->0;
                    assert(lookup_host(old_h, h) == Some(e));
                    assert(lookup_id(old_c, e.id) == Some(e));
                    lemma_lookup_host_key(old_h, h);
                    if e.id == m.id {
                        assert(e == m);
                        assert(h == m.host);
                        assert(false);
                    }
                }
                assert forall|x: Seq<char>|
                    (#[trigger] lookup_id(self.client_models(), x)) is Some implies lookup_host(
                    self.host_models(),
                    lookup_id(self.client_models(), x)->0.host,
                ) == Some(lookup_id(self.client_models(), x)->0) by {
                    let e = lookup_id(self.client_models(), x)->0;
                    assert(lookup_id(old_c, x) == Some(e));
                    assert(lookup_host(old_h, e.host) == Some(e));
                    lemma_lookup_id_key(old_c, x);
                    if e.host == m.host {
                        assert(lookup_host(old_h, m.host) == Some(e));
                    }
                }
            }
        }
    }

    /// The id of the client serving a host, if any.
    pub fn client_for_host(&self, host: &String) -> (r: Option<ClientId>)
        requires
            self.wf(),
        ensures
            r is Some <==> lookup_host(self.host_models(), host@) is Some,
            r is Some ==> r->0@ == lookup_host(self.host_models(), host@)->0.id,
    {
        match find_host_index(&self.hosts, host) {
            Some(i) => {
                proof {
                    lemma_lookup_host_unique(self.host_models(), host@, i as int);
                }
                Some(self.hosts[i].id.clone())
            },
            None => {
                proof {
                    lemma_lookup_host_member(self.host_models(), host@);
                    if lookup_host(self.host_models(), host@) is Some {
                        let j = choose|j: int|
                            0 <= j < self.host_models().len() && (
                            #[trigger] self.host_models()[j]).host == host@ && lookup_host(
                                self.host_models(),
                                host@,
                            ) == Some(self.host_models()[j]);
                        assert(false);
                    }
                }
                None
            },
        }
    }

    /// The full entry serving a host, if any.
    pub fn find_by_host(&self, host: &String) -> (r: Option<ConnectedClient>)
        requires
            self.wf(),
        ensures
            r is Some <==> lookup_host(self.host_models(), host@) is Some,
            r is Some ==> r->0@ == lookup_host(self.host_models(), host@)->0,
    {
        match find_host_index(&self.hosts, host) {
            Some(i) => {
                proof {
                    lemma_lookup_host_unique(self.host_models(), host@, i as int);
                }
                Some(self.hosts[i].clone())
            },
            None => {
                proof {
                    lemma_lookup_host_member(self.host_models(), host@);
                    if lookup_host(self.host_models(), host@) is Some {
                        let j = choose|j: int|
                            0 <= j < self.host_models().len() && (
                            #[trigger] self.host_models()[j]).host == host@ && lookup_host(
                                self.host_models(),
                                host@,
                            ) == Some(self.host_models()[j]);
                        assert(false);
                    }
                }
                None
            },
        }
    }

    /// The entry of a client id, if any.
    pub fn get(&self, client_id: &ClientId) -> (r: Option<ConnectedClient>)
        requires
            self.wf(),
        ensures
            r is Some <==> lookup_id(self.client_models(), client_id@) is Some,
            r is Some ==> r->0@ == lookup_id(self.client_models(), client_id@)->0,
    {
        match find_id_index(&self.clients, client_id) {
            Some(i) => {
                proof {
                    lemma_lookup_id_unique(self.client_models(), client_id@, i as int);
                }
                Some(self.clients[i].clone())
            },
            None => {
                proof {
                    lemma_lookup_id_member(self.client_models(), client_id@);
                    if lookup_id(self.client_models(), client_id@) is Some {
                        let j = choose|j: int|
                            0 <= j < self.client_models().len() && (
                            #[trigger] self.client_models()[j]).id == client_id@ && lookup_id(
                                self.client_models(),
                                client_id@,
                            ) == Some(self.client_models()[j]);
                        assert(false);
                    }
                }
                None
            },
        }
    }
}

/// A subdomain has at most one owner within one registry: two host
/// entries with the same host are the same entry.
pub proof fn lemma_single_owner_per_host(r: &Connections, h: Seq<char>, i: int, j: int)
    requires
        r.wf(),
        0 <= i < r.host_models().len(),
        0 <= j < r.host_models().len(),
        r.host_models()[i].host == h,
        r.host_models()[j].host == h,
    ensures
        i == j,
{
}

/// The two indexes of a consistent registry agree, entry for entry:
/// the host index maps `c.host` to an entry with id `c.id` exactly
/// when the id index maps `c.id` to an entry with host `c.host`.
pub proof fn lemma_registry_agreement(r: &Connections, c: ClientModel)
    requires
        r.consistent(),
    ensures
        (lookup_host(r.host_models(), c.host) is Some && lookup_host(r.host_models(), c.host)->0.id
            == c.id) <==> (lookup_id(r.client_models(), c.id) is Some && lookup_id(
            r.client_models(),
            c.id,
        )->0.host == c.host),
{
    lemma_lookup_host_key(r.host_models(), c.host);
    lemma_lookup_id_key(r.client_models(), c.id);
    if lookup_host(r.host_models(), c.host) is Some && lookup_host(r.host_models(), c.host)->0.id
        == c.id {
        let e = lookup_host(r.host_models(), c.host)->0;
        assert(lookup_id(r.client_models(), e.id) == Some(e));
    }
    if lookup_id(r.client_models(), c.id) is Some && lookup_id(r.client_models(), c.id)->0.host
        == c.host {
        let e = lookup_id(r.client_models(), c.id)->0;
        assert(lookup_host(r.host_models(), e.host) == Some(e));
    }
}

} // verus!
