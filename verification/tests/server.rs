use kasumin::connect::ConnectRequest;
use kasumin::connection::{Client, SessionPhase};
use kasumin::devices::{DeviceProbe, HostProbe};
use kasumin::kasu_server::{format_uuid, Dispatch, KasuminServer};
use kasumin::messages::{KasuminRequest, RequestKind, ResponseKind};
use kasumin::hosterror::HostErrorKind;
use kasumin::query::{QueryRequest, QueryResponse};
use kasumin::server_error::{EnvelopeError, ServerErrorKind};

fn connect_request(name: &str) -> KasuminRequest {
    KasuminRequest {
        uuid: String::new(),
        version: 1,
        message: RequestKind::Connect(ConnectRequest::Name(name.to_string())),
    }
}

fn query_request(uuid: &str) -> KasuminRequest {
    KasuminRequest {
        uuid: uuid.to_string(),
        version: 1,
        message: RequestKind::Query(QueryRequest::OutputDevices),
    }
}

fn default_device_host() -> Vec<HostProbe> {
    vec![HostProbe {
        hostid: "mock".to_string(),
        devices: Ok(vec![DeviceProbe { name: Some("default".to_string()), configs: Ok(Vec::new()) }]),
    }]
}

#[test]
fn uuid_strings_are_decimal_and_distinct() {
    assert_eq!(format_uuid(0), "0");
    assert_eq!(format_uuid(9), "9");
    assert_eq!(format_uuid(10), "10");
    assert_eq!(format_uuid(42), "42");
    assert_eq!(format_uuid(1234567890), "1234567890");
    assert_eq!(format_uuid(u64::MAX), "18446744073709551615");
}

#[test]
fn connect_assigns_fresh_uuids_in_order() {
    let mut server = KasuminServer::new(1024);
    let first = server.dispatch(connect_request("desk"), Vec::new());
    let second = server.dispatch(connect_request("couch"), Vec::new());
    match (first, second) {
        (Dispatch::Registered { uuid: a }, Dispatch::Registered { uuid: b }) => {
            assert_eq!(a, "0");
            assert_eq!(b, "1");
        },
        _ => panic!("a connect request registers the session"),
    }
    assert_eq!(server.clients.len(), 2);
    assert_eq!(server.clients[0].name, "desk");
    assert_eq!(server.clients[1].name, "couch");
}

// Two sequential requests from the same connection are processed in
// submission order: the first request's effects stand before the second is
// judged.
#[test]
fn coordinator_processes_in_submission_order() {
    let mut server = KasuminServer::new(1024);
    let d1 = server.dispatch(connect_request("desk"), Vec::new());
    let uuid = match d1 {
        Dispatch::Registered { uuid } => uuid,
        _ => panic!("the handshake registers"),
    };
    assert_eq!(server.version, 0, "nothing is published before the query");
    let d2 = server.dispatch(query_request(&uuid), default_device_host());
    assert!(matches!(d2, Dispatch::Published { ref errors } if errors.is_empty()));
    assert_eq!(server.version, 1);
    assert_eq!(server.clients.len(), 1, "the connect was applied before the query ran");
    assert_eq!(server.clients[0].uuid, uuid);
}

#[test]
fn deregister_removes_exactly_one_session_and_is_idempotent() {
    let mut server = KasuminServer::new(1024);
    server.dispatch(connect_request("a"), Vec::new());
    server.dispatch(connect_request("b"), Vec::new());
    server.dispatch(connect_request("c"), Vec::new());
    let uuid = server.clients[1].uuid.clone();
    server.deregister(&uuid);
    assert_eq!(server.clients.len(), 2);
    assert!(server.clients.iter().all(|c| c.uuid != uuid));
    assert_eq!(server.clients[0].name, "a");
    assert_eq!(server.clients[1].name, "c");
    server.deregister(&uuid);
    assert_eq!(server.clients.len(), 2, "deregistering an absent uuid changes nothing");
}

#[test]
fn watch_slot_keeps_only_the_latest_value() {
    let mut server = KasuminServer::new(1024);
    assert!(server.changed(0).is_none(), "nothing was published yet");
    server.dispatch(query_request("0"), Vec::new());
    server.dispatch(query_request("0"), default_device_host());
    let (version, response) = server.changed(0).expect("two snapshots were published");
    assert_eq!(version, 2);
    match &response.message {
        ResponseKind::Query(QueryResponse::OutputDevices(devs)) => {
            assert_eq!(devs.len(), 1, "the reader sees only the newest snapshot");
        },
        other => panic!("expected a query response, got {:?}", other),
    }
    assert!(server.changed(2).is_none(), "a reader at the newest version sees no change");
}

// Scenario: a client connects, sends its name, receives an assigned uuid,
// then queries the output devices and receives a broadcast that includes
// the default output device.
#[test]
fn scenario_connect_then_query() {
    let limit = 1024u32;
    let mut server = KasuminServer::new(limit as usize);
    let mut client = Client::connect(limit);
    assert_eq!(client.phase, SessionPhase::Connecting);
    client.begin_handshake();

    let hello = connect_request("desk");
    client.handshake(&hello).expect("the first frame carries a connect request");
    let uuid = match server.dispatch(hello, Vec::new()) {
        Dispatch::Registered { uuid } => uuid,
        _ => panic!("the coordinator registers the session"),
    };
    client.register(uuid.clone());
    assert_eq!(client.phase, SessionPhase::Active);
    assert_eq!(client.uuid, uuid);

    // The client frames a query; the inbound loop validates the envelope.
    let payload = vec![0x90u8, 0x01, 0x02, 0x03];
    let framed = Client::encode_envelope(&payload, limit);
    let n = client.on_envelope(&framed[..11]).expect("the envelope is valid");
    assert_eq!(n as usize, payload.len());
    assert_eq!(&framed[11..], &payload[..]);

    let request = client.tag_request(query_request(""));
    assert_eq!(request.uuid, uuid, "forwarded requests carry the session's uuid");

    match server.dispatch(request, default_device_host()) {
        Dispatch::Published { errors } => assert!(errors.is_empty()),
        _ => panic!("a query publishes a snapshot"),
    }
    let (_, response) = server.changed(0).expect("the broadcast changed after the query");
    match &response.message {
        ResponseKind::Query(QueryResponse::OutputDevices(devs)) => {
            assert!(
                devs.iter().any(|d| d.device == "default"),
                "the broadcast includes the process default output device",
            );
        },
        other => panic!("expected a device list, got {:?}", other),
    }
}

// Scenario: a client sends an envelope whose length field is zero; its
// connection closes with EnvelopeError::Zero and the server keeps serving
// other clients.
#[test]
fn scenario_zero_length_closes_only_that_connection() {
    let limit = 1024u32;
    let mut server = KasuminServer::new(limit as usize);

    let mut bad = Client::connect(limit);
    bad.begin_handshake();
    let bad_hello = connect_request("bad");
    bad.handshake(&bad_hello).unwrap();
    let bad_uuid = match server.dispatch(bad_hello, Vec::new()) {
        Dispatch::Registered { uuid } => uuid,
        _ => panic!("the handshake registers"),
    };
    bad.register(bad_uuid.clone());

    let mut good = Client::connect(limit);
    good.begin_handshake();
    let good_hello = connect_request("good");
    good.handshake(&good_hello).unwrap();
    let good_uuid = match server.dispatch(good_hello, Vec::new()) {
        Dispatch::Registered { uuid } => uuid,
        _ => panic!("the handshake registers"),
    };
    good.register(good_uuid.clone());

    let mut zero_envelope = b"kasu:".to_vec();
    zero_envelope.extend_from_slice(&[0, 0, 0, 0]);
    zero_envelope.extend_from_slice(b"\r\n");
    let err = bad.on_envelope(&zero_envelope).expect_err("a zero length is invalid");
    assert!(matches!(
        err.kind,
        ServerErrorKind::Envelope(EnvelopeError::Zero(0)),
    ));
    assert_eq!(err.client_name.as_deref(), Some("bad"));
    assert_eq!(err.client_id.as_deref(), Some(bad_uuid.as_str()));
    assert_eq!(bad.phase, SessionPhase::Closed);
    bad.close();
    assert_eq!(bad.phase, SessionPhase::Closed, "closing is idempotent");
    server.deregister(&bad_uuid);

    // The other client is unaffected and still served.
    assert_eq!(good.phase, SessionPhase::Active);
    assert_eq!(server.clients.len(), 1);
    assert_eq!(server.clients[0].uuid, good_uuid);
    match server.dispatch(client_query(&good, &good_uuid), default_device_host()) {
        Dispatch::Published { errors } => assert!(errors.is_empty()),
        _ => panic!("the server keeps serving other clients"),
    }
    assert!(server.changed(0).is_some());
}

fn client_query(client: &Client, uuid: &str) -> KasuminRequest {
    let tagged = client.tag_request(query_request(""));
    assert_eq!(tagged.uuid, uuid);
    tagged
}

#[test]
fn handshake_rejects_a_non_connect_first_frame() {
    let mut client = Client::connect(64);
    client.begin_handshake();
    let err = client
        .handshake(&query_request(""))
        .expect_err("the first frame must be a connect request");
    assert!(matches!(err.kind, ServerErrorKind::Decode(_)));
    assert_eq!(client.phase, SessionPhase::Closed);
}

#[test]
fn io_and_decode_errors_close_the_session() {
    let limit = 64u32;
    let mut client = Client::connect(limit);
    client.begin_handshake();
    let hello = connect_request("desk");
    client.handshake(&hello).unwrap();
    client.register("7".to_string());

    let mut a = client.clone();
    let err = a.on_decode_error("bad payload".to_string());
    assert!(matches!(err.kind, ServerErrorKind::Decode(ref d) if d == "bad payload"));
    assert_eq!(err.client_name.as_deref(), Some("desk"));
    assert_eq!(err.client_id.as_deref(), Some("7"));
    assert_eq!(a.phase, SessionPhase::Closed);

    let mut b = client.clone();
    let err = b.on_io_error("connection reset".to_string());
    assert!(matches!(err.kind, ServerErrorKind::Network(ref d) if d == "connection reset"));
    assert_eq!(b.phase, SessionPhase::Closed);
}

#[test]
fn query_reports_failing_hosts_without_failing() {
    let mut server = KasuminServer::new(64);
    let hosts = vec![
        HostProbe {
            hostid: "working".to_string(),
            devices: Ok(vec![DeviceProbe { name: Some("out".to_string()), configs: Ok(Vec::new()) }]),
        },
        HostProbe { hostid: "broken".to_string(), devices: Err(HostErrorKind::HostUnavailable) },
    ];
    match server.dispatch(query_request("0"), hosts) {
        Dispatch::Published { errors } => {
            assert_eq!(errors.len(), 1);
            assert_eq!(errors[0].hostid.as_deref(), Some("broken"));
        },
        _ => panic!("a query publishes even when a host fails"),
    }
    let (_, response) = server.changed(0).unwrap();
    match &response.message {
        ResponseKind::Query(QueryResponse::OutputDevices(devs)) => {
            assert_eq!(devs.len(), 1);
            assert_eq!(devs[0].host, "working");
        },
        other => panic!("expected a device list, got {:?}", other),
    }
}
