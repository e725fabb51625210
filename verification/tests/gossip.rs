//! Fleet lookup: the local answer to a peer's query, and the choice
//! among the peers' answers.
use tunnelto::codec::ControlPacket;
use tunnelto::ids::ClientId;
use tunnelto::network::{handle_query, instance_for_host_outcome, Error, HostQuery, Instance,
    PeerAnswer};
use tunnelto::registry::{ConnectedClient, Connections};

#[test]
fn local_query_answers_from_the_registry() {
    let mut conns = Connections::new();
    let (tx, _rx) = futures::channel::mpsc::unbounded::<ControlPacket>();
    conns.add(ConnectedClient {
        id: ClientId::from_text("c1".to_string()),
        host: "s1".to_string(),
        is_anonymous: false,
        tx,
    });
    let hit = handle_query(&conns, &HostQuery { host: "s1".to_string() });
    assert_eq!(hit.client_id.expect("served").to_string(), "c1");
    let miss = handle_query(&conns, &HostQuery { host: "s2".to_string() });
    assert!(miss.client_id.is_none());
}

#[test]
fn no_peers_means_no_one_serves_the_host() {
    match instance_for_host_outcome(Vec::new()) {
        Err(Error::DoesNotServeHost) => {}
        _ => panic!("an empty fleet must not serve the host"),
    }
}

#[test]
fn all_blank_answers_mean_no_one_serves_the_host() {
    let answers = vec![
        PeerAnswer { instance: Instance { ip: "10.0.0.1".to_string() }, client_id: None },
        PeerAnswer { instance: Instance { ip: "10.0.0.2".to_string() }, client_id: None },
    ];
    match instance_for_host_outcome(answers) {
        Err(Error::DoesNotServeHost) => {}
        _ => panic!("a fleet of blanks must not serve the host"),
    }
}

#[test]
fn first_claim_wins() {
    let answers = vec![
        PeerAnswer { instance: Instance { ip: "10.0.0.1".to_string() }, client_id: None },
        PeerAnswer {
            instance: Instance { ip: "10.0.0.2".to_string() },
            client_id: Some(ClientId::from_text("c2".to_string())),
        },
        PeerAnswer {
            instance: Instance { ip: "10.0.0.3".to_string() },
            client_id: Some(ClientId::from_text("c3".to_string())),
        },
    ];
    let (instance, id) = instance_for_host_outcome(answers).expect("a peer claimed the host");
    assert_eq!(instance.ip, "10.0.0.2");
    assert_eq!(id.to_string(), "c2");
}

#[test]
fn peer_claim_routes_a_foreign_subdomain() {
    // One instance owns the subdomain; another, asked for it, finds
    // no local client and proxies to the owner.
    let mut instance_a = Connections::new();
    let (tx, _rx) = futures::channel::mpsc::unbounded::<ControlPacket>();
    instance_a.add(ConnectedClient {
        id: ClientId::from_text("c1".to_string()),
        host: "s1".to_string(),
        is_anonymous: false,
        tx,
    });
    let instance_b = Connections::new();
    assert!(instance_b.find_by_host(&"s1".to_string()).is_none());
    let answer_of_a = handle_query(&instance_a, &HostQuery { host: "s1".to_string() });
    let answers = vec![PeerAnswer {
        instance: Instance { ip: "10.0.0.1".to_string() },
        client_id: answer_of_a.client_id,
    }];
    let (owner, id) = instance_for_host_outcome(answers).expect("the sibling claims it");
    assert_eq!(owner.ip, "10.0.0.1");
    assert_eq!(id.to_string(), "c1");
}
