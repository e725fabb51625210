//! Registry behavior: the two indexes, single ownership per
//! subdomain, rebinds and idempotent removal.
use tunnelto::codec::ControlPacket;
use tunnelto::ids::ClientId;
use tunnelto::registry::{ConnectedClient, Connections};

fn client(id: &str, host: &str) -> ConnectedClient {
    let (tx, _rx) = futures::channel::mpsc::unbounded::<ControlPacket>();
    ConnectedClient {
        id: ClientId::from_text(id.to_string()),
        host: host.to_string(),
        is_anonymous: false,
        tx,
    }
}

#[test]
fn add_then_find() {
    let mut conns = Connections::new();
    conns.add(client("c1", "my-app"));
    let found = conns.find_by_host(&"my-app".to_string()).expect("host is registered");
    assert_eq!(found.id.to_string(), "c1");
    assert_eq!(found.host, "my-app");
    let by_id = conns.get(&ClientId::from_text("c1".to_string())).expect("id is registered");
    assert_eq!(by_id.host, "my-app");
    assert_eq!(
        conns
            .client_for_host(&"my-app".to_string())
            .expect("host is registered")
            .to_string(),
        "c1"
    );
}

#[test]
fn missing_entries_are_absent() {
    let conns = Connections::new();
    assert!(conns.find_by_host(&"nope".to_string()).is_none());
    assert!(conns.get(&ClientId::from_text("nobody".to_string())).is_none());
    assert!(conns.client_for_host(&"nope".to_string()).is_none());
}

#[test]
fn one_owner_per_subdomain() {
    let mut conns = Connections::new();
    conns.add(client("c1", "shared"));
    conns.add(client("c2", "shared"));
    // Re-bind wins: the host index holds exactly one entry, the newer.
    let owner = conns.find_by_host(&"shared".to_string()).expect("host is registered");
    assert_eq!(owner.id.to_string(), "c2");
}

#[test]
fn remove_releases_both_entries() {
    let mut conns = Connections::new();
    let c = client("c1", "my-app");
    conns.add(c.clone());
    conns.remove(&c);
    assert!(conns.find_by_host(&"my-app".to_string()).is_none());
    assert!(conns.get(&ClientId::from_text("c1".to_string())).is_none());
    // A second removal is harmless.
    conns.remove(&c);
    assert!(conns.find_by_host(&"my-app".to_string()).is_none());
}

#[test]
fn remove_spares_a_newer_owner() {
    let mut conns = Connections::new();
    let old = client("c1", "shared");
    conns.add(old.clone());
    conns.add(client("c2", "shared"));
    // The old client leaving must not tear down the new owner's host.
    conns.remove(&old);
    let owner = conns.find_by_host(&"shared".to_string()).expect("newer owner stays");
    assert_eq!(owner.id.to_string(), "c2");
    assert!(conns.get(&ClientId::from_text("c1".to_string())).is_none());
}

#[test]
fn update_host_refreshes_the_entry() {
    let mut conns = Connections::new();
    let c = client("c1", "my-app");
    conns.add(c.clone());
    conns.update_host(&c);
    let owner = conns.find_by_host(&"my-app".to_string()).expect("host is registered");
    assert_eq!(owner.id.to_string(), "c1");
}

#[test]
fn indexes_agree_after_a_mixed_run() {
    let mut conns = Connections::new();
    let a = client("a", "one");
    let b = client("b", "two");
    let c = client("c", "three");
    conns.add(a.clone());
    conns.add(b.clone());
    conns.add(c.clone());
    conns.update_host(&b);
    conns.remove(&a);
    for (id, host) in [("b", "two"), ("c", "three")] {
        let by_host = conns.find_by_host(&host.to_string()).expect("registered");
        assert_eq!(by_host.id.to_string(), id);
        let by_id = conns.get(&ClientId::from_text(id.to_string())).expect("registered");
        assert_eq!(by_id.host, host);
    }
    assert!(conns.find_by_host(&"one".to_string()).is_none());
}
