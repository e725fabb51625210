//! Request capture: parsing a proxied exchange into a record, the
//! store, and the dashboard snapshot order.
use tunnelto::introspect::{collect_capture, Request, Requests};

fn sample(id: &str, completed: i64) -> Request {
    let request = b"GET /ping HTTP/1.1\r\nHost: abcd1234.tunnelto.dev\r\n\r\n".to_vec();
    let response = b"HTTP/1.1 200 OK\r\nContent-Length: 4\r\n\r\npong".to_vec();
    let mut record = collect_capture(id.to_string(), 0, completed, request, response)
        .expect("a complete request parses");
    record.completed = completed;
    record
}

#[test]
fn round_trip_capture_reads_the_exchange() {
    let request = b"GET /ping HTTP/1.1\r\nHost: abcd1234.tunnelto.dev\r\n\r\n".to_vec();
    let response = b"HTTP/1.1 200 OK\r\nContent-Length: 4\r\n\r\npong".to_vec();
    let record = collect_capture("r1".to_string(), 100, 200, request.clone(), response)
        .expect("a complete request parses");
    assert_eq!(record.method.as_deref(), Some("GET"));
    assert_eq!(record.path.as_deref(), Some("/ping"));
    assert_eq!(record.status, 200);
    assert_eq!(record.response_data, b"pong".to_vec());
    assert_eq!(record.body_data, Vec::<u8>::new());
    assert_eq!(record.entire_request, request);
    assert_eq!(record.headers.len(), 1);
    assert_eq!(record.headers[0].name, "Host");
    assert_eq!(record.headers[0].value, "abcd1234.tunnelto.dev");
    assert_eq!(record.response_headers.len(), 1);
    assert_eq!(record.response_headers[0].value, "4");
    assert!(!record.is_replay);
}

#[test]
fn incomplete_request_yields_no_record() {
    let request = b"GET /ping HTTP/1.1\r\nHost: x\r\n".to_vec();
    assert!(collect_capture("r1".to_string(), 0, 0, request, Vec::new()).is_none());
}

#[test]
fn malformed_response_keeps_its_raw_bytes() {
    let request = b"POST /x HTTP/1.1\r\n\r\nbody".to_vec();
    let response = b"garbage".to_vec();
    let record = collect_capture("r1".to_string(), 0, 0, request, response)
        .expect("the request side parses");
    assert_eq!(record.status, 0);
    assert_eq!(record.response_headers.len(), 0);
    assert_eq!(record.response_data, b"garbage".to_vec());
    assert_eq!(record.body_data, b"body".to_vec());
}

#[test]
fn store_keeps_one_record_per_id() {
    let mut store = Requests::new();
    store.insert(sample("a", 10));
    store.insert(sample("b", 20));
    store.insert(sample("a", 30));
    assert_eq!(store.len(), 2);
    let a = store.get(&"a".to_string()).expect("stored");
    assert_eq!(a.completed, 30);
    assert!(store.get(&"missing".to_string()).is_none());
}

#[test]
fn snapshot_is_newest_first() {
    let mut store = Requests::new();
    store.insert(sample("a", 10));
    store.insert(sample("b", 30));
    store.insert(sample("c", 20));
    let listing = store.list();
    let completions: Vec<i64> = listing.iter().map(|r| r.completed).collect();
    assert_eq!(completions, vec![30, 20, 10]);
}

#[test]
fn elapsed_prefers_whole_seconds() {
    let mut quick = sample("a", 500);
    quick.started = 0;
    quick.completed = 500;
    assert_eq!(quick.elapsed(), "500ms");
    let mut slow = sample("b", 2500);
    slow.started = 0;
    slow.completed = 2500;
    assert_eq!(slow.elapsed(), "2s");
}
