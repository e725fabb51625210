//! The fleet's peer-lookup layer: any instance may be asked which
//! client, if any, serves a subdomain, and an instance receiving a
//! public connection for a subdomain it does not serve asks its
//! siblings.  Who answers the wire is outside work; the choice among
//! the answers is verified for every pattern of them.
use crate::ids::ClientId;
use crate::registry::{lookup_host, Connections};
use vstd::prelude::*;

verus! {

/// Why a peer lookup failed.
#[derive(Debug, Clone)]
pub enum Error {
    /// A socket failed; the detail text travels along.
    IoError(String),
    /// The HTTP query to a peer failed.
    Request(String),
    /// The DNS discovery of the fleet failed.
    Resolver(String),
    /// No instance in the fleet serves the subdomain.
    DoesNotServeHost,
}

/// One sibling server instance, named by its address text.
#[derive(Debug)]
pub struct Instance {
    pub ip: String,
}

impl Clone for Instance {
    /// Clones the instance, keeping its address.
    fn clone(&self) -> (r: Self)
        ensures
            r@ == self@,
    {
        Instance { ip: self.ip.clone() }
    }
}

impl View for Instance {
    type V = Seq<char>;

    open spec fn view(&self) -> Seq<char> {
        self.ip@
    }
}

/// The query one instance sends another: which host is asked about.
#[derive(Debug, Clone)]
pub struct HostQuery {
    pub host: String,
}

/// The answer: the serving client's id, or nothing.
#[derive(Debug, Clone)]
pub struct HostQueryResponse {
    pub client_id: Option<ClientId>,
}

/// Answers a peer's query from the local registry alone.
pub fn handle_query(conns: &Connections, query: &HostQuery) -> (r: HostQueryResponse)
    requires
        conns.wf(),
    ensures
        r.client_id is Some <==> lookup_host(conns.host_models(), query.host@) is Some,
        r.client_id is Some ==> r.client_id->0@ == lookup_host(
            conns.host_models(),
            query.host@,
        )->0.id,
{
    HostQueryResponse { client_id: conns.client_for_host(&query.host) }
}

/// What one peer answered, paired with who answered it.
pub struct PeerAnswer {
    pub instance: Instance,
    pub client_id: Option<ClientId>,
}

/// The mathematical shape of a peer's answer.
pub struct PeerAnswerModel {
    pub instance: Seq<char>,
    pub client_id: Option<Seq<char>>,
}

impl View for PeerAnswer {
    type V = PeerAnswerModel;

    open spec fn view(&self) -> PeerAnswerModel {
        PeerAnswerModel {
            instance: self.instance@,
            client_id: match &self.client_id {
                Some(c) => Some(c@),
                None => None,
            },
        }
    }
}

/// The first peer that claimed the host, in arrival order.
pub open spec fn spec_first_serving(answers: Seq<PeerAnswerModel>) -> Option<PeerAnswerModel>
    decreases answers.len(),
{
    if answers.len() == 0 {
        None
    } else if answers[0].client_id is Some {
        Some(answers[0])
    } else {
        spec_first_serving(answers.drop_first())
    }
}

/// Decides a fleet lookup from the peers' answers, in the order they
/// arrived: the first peer that claims the host wins; no peers, or no
/// claim from any of them, means no instance serves the host.
pub fn instance_for_host_outcome(answers: Vec<PeerAnswer>) -> (r: Result<(Instance, ClientId), Error>)
    ensures
        match spec_first_serving(answers@.map_values(|a: PeerAnswer| a@)) {
            Some(winner) => r matches Ok(p) && p.0@ == winner.instance && Some(p.1@)
                == winner.client_id,
            None => r matches Err(e) && e is DoesNotServeHost,
        },
{
    let ghost models = answers@.map_values(|a: PeerAnswer| a@);
    let n: usize = answers.len();
    proof {
        assert(models.skip(0) =~= models);
    }
    let mut i: usize = 0;
    while i < n
        invariant
            n == answers@.len(),
            models == answers@.map_values(|a: PeerAnswer| a@),
            0 <= i <= n,
            spec_first_serving(models) == spec_first_serving(models.skip(i as int)),
        decreases n - i,
    {
        proof {
            assert(models.skip(i as int)[0] == models[i as int]);
            assert(models.skip(i as int).drop_first() =~= models.skip(i + 1));
        }
        match &answers[i].client_id {
            Some(id) => {
                return Ok((answers[i].instance.clone(), id.clone()));
            },
            None => {},
        }
        i = i + 1;
    }
    proof {
        assert(models.skip(n as int) =~= Seq::<PeerAnswerModel>::empty());
    }
    Err(Error::DoesNotServeHost)
}

} // verus!
