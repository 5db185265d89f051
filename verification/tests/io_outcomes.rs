use std::sync::{Arc, Mutex};

use trust0::crypto::asn::{stringify_asn_value, AsnValue, TAG_OID, TAG_RELATIVE_OID};
use trust0::crypto::identity::{identify, parse_identity};
use trust0::error::AppError;
use trust0::net::addr::{IpAddress, SocketAddress};
use trust0::net::io::{filled_bytes, IoErrorKind, IoFailure};
use trust0::net::tcp_server::{
    bytes_to_show, Connection, ConnectionAction, ConnectionEvent, ConnectionVisitor, ReadOutcome,
    WriteOutcome,
};
use trust0::net::udp_server::{
    BindOutcome, PollOutcome, RecvOutcome, Server, ServerVisitor, RECV_BUFFER_SIZE,
};
use trust0::proxy::event::ProxyEvent;
use trust0::proxy::registry::ProxyKeyTable;
use trust0::proxy::tunnel::{Direction, PumpAction, PumpRead, Tunnel};

fn failure(kind: IoErrorKind, cause: &str) -> IoFailure {
    IoFailure { kind, cause: cause.to_string() }
}

fn peer() -> SocketAddress {
    SocketAddress::new(IpAddress::V4(0x0a00_0001), 5000)
}

#[test]
fn io_filled_bytes_are_cut_to_the_size() {
    assert_eq!(filled_bytes(b"hello world", 5), b"hello".to_vec());
    assert_eq!(filled_bytes(b"hello", 5), b"hello".to_vec());
    assert_eq!(filled_bytes(b"hello", 0), Vec::<u8>::new());
    assert_eq!(filled_bytes(b"hello", 9), b"hello".to_vec());
}

#[test]
fn conn_read_outcome_for_what_a_read_returned() {
    let buffer = b"hello, and what was there before".to_vec();

    assert!(matches!(ReadOutcome::classify(&buffer, Ok(0)), ReadOutcome::Eof));
    match ReadOutcome::classify(&buffer, Ok(5)) {
        ReadOutcome::Data(chunk) => assert_eq!(chunk, b"hello".to_vec()),
        _ => panic!("Unexpected outcome"),
    }
    assert!(matches!(
        ReadOutcome::classify(&buffer, Err(failure(IoErrorKind::UnexpectedEof, "closed"))),
        ReadOutcome::Eof
    ));
    assert!(matches!(
        ReadOutcome::classify(&buffer, Err(failure(IoErrorKind::WouldBlock, "wait"))),
        ReadOutcome::WouldBlock
    ));
    match ReadOutcome::classify(&buffer, Err(failure(IoErrorKind::Other, "error1"))) {
        ReadOutcome::Failed(cause) => assert_eq!(cause, "error1"),
        _ => panic!("Unexpected outcome"),
    }
}

#[test]
fn conn_write_outcome_for_what_a_write_returned() {
    assert!(matches!(WriteOutcome::classify(Ok(())), WriteOutcome::Written));
    assert!(matches!(
        WriteOutcome::classify(Err(failure(IoErrorKind::UnexpectedEof, "closed"))),
        WriteOutcome::Eof
    ));
    assert!(matches!(
        WriteOutcome::classify(Err(failure(IoErrorKind::WouldBlock, "wait"))),
        WriteOutcome::WouldBlock
    ));
    match WriteOutcome::classify(Err(failure(IoErrorKind::Other, "error1"))) {
        WriteOutcome::Failed(cause) => assert_eq!(cause, "error1"),
        _ => panic!("Unexpected outcome"),
    }
}

struct Recorder {
    read: Arc<Mutex<Vec<Vec<u8>>>>,
    messages: Arc<Mutex<Vec<(SocketAddress, SocketAddress, Vec<u8>)>>>,
}

impl Recorder {
    fn new() -> Self {
        Recorder { read: Arc::new(Mutex::new(vec![])), messages: Arc::new(Mutex::new(vec![])) }
    }
}

impl ConnectionVisitor for Recorder {
    fn on_connection_read(&mut self, data: &[u8]) -> Result<(), AppError> {
        self.read.lock().unwrap().push(data.to_vec());
        Ok(())
    }

    fn send_error_response(&mut self, _err: &AppError) {}
}

impl ServerVisitor for Recorder {
    fn on_message_received(
        &mut self,
        local_addr: &SocketAddress,
        peer_addr: &SocketAddress,
        data: Vec<u8>,
    ) -> Result<(), AppError> {
        self.messages.lock().unwrap().push((*local_addr, *peer_addr, data));
        Ok(())
    }

    fn get_shutdown_requested(&self) -> bool {
        false
    }
}

#[test]
fn conn_read_when_the_read_returns_no_bytes() {
    let recorder = Recorder::new();
    let read = recorder.read.clone();
    let (sender, _receiver) = ConnectionEvent::create_channel();
    let mut conn = Connection::new(recorder, sender).unwrap();
    let block = [0u8; 1024];

    let mut buffer = Vec::new();
    let again = conn.read_tcp_stream(&mut buffer, ReadOutcome::classify(&block, Ok(0))).unwrap();
    let result = conn.read(Ok(buffer)).unwrap();

    assert!(!again);
    assert!(result.is_empty());
    assert!(read.lock().unwrap().is_empty());
    assert_eq!(conn.pending_events(), 1);
    assert_eq!(conn.poll_connection(), ConnectionAction::Shutdown);
}

#[test]
fn conn_read_when_data_without_bytes_is_handed_in() {
    let (sender, _receiver) = ConnectionEvent::create_channel();
    let mut conn = Connection::new(Recorder::new(), sender).unwrap();

    let mut buffer = b"kept".to_vec();
    let again = conn.read_tcp_stream(&mut buffer, ReadOutcome::Data(vec![])).unwrap();

    assert!(!again);
    assert_eq!(buffer, b"kept".to_vec());
    assert_eq!(conn.pending_events(), 1);
    assert_eq!(conn.poll_connection(), ConnectionAction::Shutdown);
}

#[test]
fn conn_bytes_to_show_are_all_that_was_read() {
    assert_eq!(bytes_to_show(&Ok(b"hello".to_vec())), Some(&b"hello"[..]));
    assert_eq!(bytes_to_show(&Ok(vec![0])), Some(&[0u8][..]));
    assert_eq!(bytes_to_show(&Ok(vec![])), None);
    assert_eq!(bytes_to_show(&Err(AppError::WouldBlock)), None);
}

#[test]
fn conn_read_shows_the_visitor_what_was_read() {
    let recorder = Recorder::new();
    let read = recorder.read.clone();
    let (sender, _receiver) = ConnectionEvent::create_channel();
    let mut conn = Connection::new(recorder, sender).unwrap();

    conn.read(Ok(b"first".to_vec())).unwrap();
    conn.read(Ok(vec![])).unwrap();
    assert!(conn.read(Err(AppError::WouldBlock)).is_err());
    conn.read(Ok(b"second".to_vec())).unwrap();

    assert_eq!(*read.lock().unwrap(), vec![b"first".to_vec(), b"second".to_vec()]);
}

#[test]
fn udpsrv_poll_outcome_for_what_a_wait_returned() {
    assert!(matches!(PollOutcome::classify(Ok(())), PollOutcome::Ready));
    assert!(matches!(
        PollOutcome::classify(Err(failure(IoErrorKind::WouldBlock, "wait"))),
        PollOutcome::WouldBlock
    ));
    for kind in [IoErrorKind::Other, IoErrorKind::UnexpectedEof] {
        match PollOutcome::classify(Err(failure(kind, "interrupted"))) {
            PollOutcome::Failed(cause) => assert_eq!(cause, "interrupted"),
            _ => panic!("Unexpected outcome"),
        }
    }
}

#[test]
fn udpsrv_recv_outcome_is_cut_to_the_datagram() {
    let mut buffer = vec![0u8; RECV_BUFFER_SIZE];
    buffer[..5].copy_from_slice(b"hello");

    match RecvOutcome::classify(&buffer, Ok((5, peer()))) {
        RecvOutcome::Datagram { peer: from, data } => {
            assert_eq!(from, peer());
            assert_eq!(data, b"hello".to_vec());
        }
        _ => panic!("Unexpected outcome"),
    }
    match RecvOutcome::classify(&buffer, Ok((0, peer()))) {
        RecvOutcome::Datagram { data, .. } => assert!(data.is_empty()),
        _ => panic!("Unexpected outcome"),
    }
    match RecvOutcome::classify(&buffer, Ok((RECV_BUFFER_SIZE, peer()))) {
        RecvOutcome::Datagram { data, .. } => assert_eq!(data.len(), RECV_BUFFER_SIZE),
        _ => panic!("Unexpected outcome"),
    }
    assert!(matches!(
        RecvOutcome::classify(&buffer, Err(failure(IoErrorKind::WouldBlock, "wait"))),
        RecvOutcome::WouldBlock
    ));
    match RecvOutcome::classify(&buffer, Err(failure(IoErrorKind::Other, "reset"))) {
        RecvOutcome::Failed(cause) => assert_eq!(cause, "reset"),
        _ => panic!("Unexpected outcome"),
    }
}

#[test]
fn udpsrv_each_datagram_reaches_the_visitor_once_as_it_came() {
    let recorder = Recorder::new();
    let messages = recorder.messages.clone();
    let local = SocketAddress::unspecified(3000);
    let mut server = Server::new(recorder, 3000).unwrap();
    server.bind_listener(BindOutcome::Bound(local)).unwrap();
    let mut buffer = vec![0xaau8; RECV_BUFFER_SIZE];
    let datagrams: Vec<(SocketAddress, Vec<u8>)> = vec![
        (peer(), b"one".to_vec()),
        (SocketAddress::new(IpAddress::V6(1), 6000), vec![]),
        (peer(), vec![7u8; 2000]),
    ];

    for (from, bytes) in &datagrams {
        buffer[..bytes.len()].copy_from_slice(bytes);
        let received = RecvOutcome::classify(&buffer, Ok((bytes.len(), *from)));
        server.accept_message(received).unwrap();
    }

    let expected: Vec<(SocketAddress, SocketAddress, Vec<u8>)> =
        datagrams.iter().map(|(from, bytes)| (local, *from, bytes.clone())).collect();
    assert_eq!(*messages.lock().unwrap(), expected);
}

#[test]
fn udpsrv_message_for_visitor() {
    let local = SocketAddress::unspecified(3000);
    let mut server = Server::new(Recorder::new(), 3000).unwrap();
    server.bind_listener(BindOutcome::Bound(local)).unwrap();

    let message = server
        .message_for_visitor(RecvOutcome::Datagram { peer: peer(), data: b"hello".to_vec() })
        .unwrap();
    assert_eq!(message, (local, peer(), b"hello".to_vec()));
    assert!(matches!(
        server.message_for_visitor(RecvOutcome::WouldBlock),
        Err(AppError::WouldBlock)
    ));
    match server.message_for_visitor(RecvOutcome::Failed("reset".to_string())) {
        Err(AppError::GenWithMsgAndErr(message, cause)) => {
            assert_eq!(message, "Error receiving message: server_addr=[::]:3000");
            assert_eq!(cause, "reset");
        }
        other => panic!("Unexpected result: {:?}", other),
    }
}

#[test]
fn tunnel_pump_read_for_what_a_read_returned() {
    let buffer = b"hello, and more".to_vec();

    assert!(matches!(PumpRead::classify(&buffer, Ok(0)), PumpRead::Eof));
    match PumpRead::classify(&buffer, Ok(5)) {
        PumpRead::Data(bytes) => assert_eq!(bytes, b"hello".to_vec()),
        _ => panic!("Unexpected outcome"),
    }
    assert!(matches!(
        PumpRead::classify(&buffer, Err(failure(IoErrorKind::UnexpectedEof, "closed"))),
        PumpRead::Eof
    ));
    assert!(matches!(
        PumpRead::classify(&buffer, Err(failure(IoErrorKind::WouldBlock, "wait"))),
        PumpRead::WouldBlock
    ));
    assert!(matches!(
        PumpRead::classify(&buffer, Err(failure(IoErrorKind::Other, "reset"))),
        PumpRead::Failed
    ));
}

#[test]
fn tunnel_is_torn_down_by_a_failed_write() {
    let mut tunnel = Tunnel::new("k7");

    assert_eq!(
        tunnel.on_write_failed(),
        PumpAction::Reap(ProxyEvent::Closed("k7".to_string()))
    );
    assert!(tunnel.is_closed());
    assert_eq!(tunnel.on_write_failed(), PumpAction::Ignore);
    assert_eq!(tunnel.on_read(Direction::Forward, PumpRead::Data(vec![1])), PumpAction::Ignore);
}

#[test]
fn registry_first_by_owner() {
    let mut table = ProxyKeyTable::new();
    table.insert("a1", 200);
    table.insert("a2", 200);
    table.insert("b1", 201);
    let keys: Vec<String> =
        ["gone", "a2", "b1", "a1", "b1"].iter().map(|key| key.to_string()).collect();

    assert_eq!(table.first_by_owner(&keys), vec![(200, 1), (201, 2)]);
    assert_eq!(table.first_by_owner(&vec![]), vec![]);
    assert_eq!(table.first_by_owner(&vec!["gone".to_string()]), vec![]);
}

#[test]
fn asn_object_identifier_with_content_has_text() {
    for tag in [TAG_OID, TAG_RELATIVE_OID] {
        for data in [vec![0u8], vec![0x2a], vec![0xff], vec![0x80, 0x80], vec![0x2a, 0x86]] {
            let text =
                stringify_asn_value(&AsnValue { tag, constructed: false, data: data.clone() })
                    .unwrap();
            assert!(!text.is_empty(), "tag={}, data={:?}", tag, data);
        }
    }
    let empty = AsnValue { tag: TAG_OID, constructed: false, data: vec![] };
    assert_eq!(stringify_asn_value(&empty).unwrap(), "");
}

fn refused(result: Result<(u64, String), AppError>) -> bool {
    match result {
        Err(AppError::GenWithCodeAndMsg(code, message)) => {
            code == 420 && message == "[E0420] Invalid client certificate"
        }
        _ => false,
    }
}

#[test]
fn identity_is_read_from_id_and_name() {
    assert_eq!(parse_identity("100:user100").unwrap(), (100, "user100".to_string()));
    assert_eq!(parse_identity("0:").unwrap(), (0, String::new()));
    assert_eq!(parse_identity("007:a:b").unwrap(), (7, "a:b".to_string()));
    assert_eq!(
        parse_identity("18446744073709551615:max").unwrap(),
        (u64::MAX, "max".to_string())
    );
    assert_eq!(parse_identity("5:z\u{fc}rich").unwrap(), (5, "z\u{fc}rich".to_string()));
    for text in ["", ":", ":name", "name", "100", "10x:name", "-1:name", "+1:name", " 1:name",
        "18446744073709551616:over"]
    {
        assert!(refused(parse_identity(text)), "text={}", text);
    }
}

#[test]
fn identity_is_taken_from_the_uri_before_the_common_name() {
    assert_eq!(identify(Some("100:uri"), Some("200:cn")).unwrap(), (100, "uri".to_string()));
    assert_eq!(identify(None, Some("200:cn")).unwrap(), (200, "cn".to_string()));
    assert!(refused(identify(Some("malformed"), Some("200:cn"))));
    assert!(refused(identify(None, Some("malformed"))));
    assert!(refused(identify(None, None)));
}
