use sozu_core::address::SocketAddress;
use sozu_core::buffer::Buffer;
use sozu_core::collections::TextMap;
use sozu_core::protocol::parsing::{empty, take_while1_complete, take_while_complete};
use sozu_core::protocol::pipe::log::AccessContext;
use sozu_core::protocol::pipe::steps::{AccessError, AccessLog, Report, WriteStep};
use sozu_core::protocol::pipe::turn::{SocketEvent, Turn, TurnStep};
use sozu_core::protocol::pipe::Pipe;
use sozu_core::protocol::proxy_protocol::expect::{
    ExpectEvent, ExpectProxyProtocol, ExpectReport, ExpectStep, ExpectTurn,
};
use sozu_core::protocol::proxy_protocol::header::{Command, HeaderV2, ProxyAddr};
use sozu_core::protocol::proxy_protocol::parser::{parse_v2_header, Parsed};
use sozu_core::protocol::rustls::{TlsEvent, TlsHandshake, TlsIo, TlsStatus, TlsStep, TlsTurn};
use sozu_core::ready::{Readiness, Ready, Token};
use sozu_core::session::{
    Protocol, ProtocolResult, SessionMetrics, SessionResult, SessionState, SocketResult,
    TimeoutContainer, TimerOrder, TransportProtocol,
};

fn pipe_of(capacity: usize, backend: bool) -> Pipe {
    let mut pipe = Pipe::new(
        Token(10),
        1,
        None,
        None,
        None,
        backend,
        Buffer::with_capacity(capacity),
        Buffer::with_capacity(capacity),
        None,
        Protocol::TCP,
    );
    if backend {
        pipe.set_back_token(Token(11));
    }
    pipe
}

#[test]
fn a_buffer_is_first_in_first_out() {
    let mut buffer = Buffer::with_capacity(10);
    buffer.fill(&vec![1, 2, 3, 4, 5, 6]);
    assert_eq!(buffer.available_space(), 4);
    buffer.consume(2);
    assert_eq!(buffer.data(), &vec![3, 4, 5, 6]);
    assert_eq!(buffer.available_space(), 4);
    // more than half of the room lies in front of the data: the data moves
    buffer.consume(4);
    assert_eq!(buffer.available_data(), 0);
    assert_eq!(buffer.available_space(), 10);
    buffer.consume(3);
    assert_eq!(buffer.available_data(), 0);
    assert_eq!(buffer.capacity(), 10);
}

#[test]
fn only_interesting_events_are_pending() {
    let mut readiness = Readiness::new();
    readiness.event.insert(Ready::readable());
    readiness.event.insert(Ready::hup());
    assert!(readiness.filter_interest().is_empty());
    readiness.interest.insert(Ready::all());
    readiness.interest.remove(Ready::hup());
    assert_eq!(readiness.filter_interest(), Ready::readable());
    readiness.reset();
    assert_eq!(readiness, Readiness::new());
    assert_eq!(
        Ready::error().union(Ready::writable()).difference(Ready::error()),
        Ready::writable()
    );
}

#[test]
fn a_pipe_forwards_in_both_directions() {
    let mut pipe = pipe_of(16, true);
    let mut metrics = SessionMetrics::new();
    let report = pipe.readable(
        &mut metrics,
        Some((b"ping".to_vec(), SocketResult::WouldBlock)),
    );
    assert_eq!(report.result, SessionResult::Continue);
    assert_eq!(metrics.bin, 4);
    assert_eq!(pipe.data_for_backend(), &b"ping".to_vec());
    assert_eq!(
        pipe.start_backend_writing(&mut metrics),
        WriteStep::More { sent: 0 }
    );
    assert_eq!(
        pipe.backend_writable(&mut metrics, 0, 1, SocketResult::Continue),
        WriteStep::More { sent: 1 }
    );
    assert_eq!(pipe.data_for_backend(), &b"ing".to_vec());
    assert!(matches!(
        pipe.backend_writable(&mut metrics, 1, 3, SocketResult::WouldBlock),
        WriteStep::Done(Report {
            result: SessionResult::Continue,
            ..
        })
    ));
    assert_eq!(metrics.backend_bout, 4);
    assert!(!pipe.backend_readiness.event.writable);

    pipe.backend_readable(
        &mut metrics,
        Some((b"pong".to_vec(), SocketResult::Continue)),
    );
    assert_eq!(metrics.backend_bin, 4);
    assert_eq!(pipe.start_writing(&metrics), WriteStep::More { sent: 0 });
    assert!(matches!(
        pipe.writable(&mut metrics, 0, 4, SocketResult::Continue),
        WriteStep::Done(Report {
            result: SessionResult::Continue,
            ..
        })
    ));
    assert_eq!(metrics.bout, 4);
    assert!(!pipe.frontend_readiness.interest.writable);
}

#[test]
fn bytes_that_empty_the_buffer_at_once_are_not_counted() {
    let mut pipe = pipe_of(16, true);
    let mut metrics = SessionMetrics::new();
    pipe.readable(
        &mut metrics,
        Some((b"ping".to_vec(), SocketResult::Continue)),
    );
    pipe.backend_writable(&mut metrics, 0, 4, SocketResult::Continue);
    assert_eq!(metrics.backend_bout, 0);
}

#[test]
fn a_full_buffer_is_not_read_into() {
    let mut pipe = pipe_of(4, true);
    let mut metrics = SessionMetrics::new();
    pipe.readable(
        &mut metrics,
        Some((b"ping".to_vec(), SocketResult::Continue)),
    );
    assert_eq!(pipe.room_for_frontend(), 0);
    assert!(!pipe.frontend_readiness.interest.readable);
    let report = pipe.readable(&mut metrics, None);
    assert_eq!(report.log, AccessLog::Silent);
    assert!(pipe.backend_readiness.interest.writable);
}

#[test]
fn socket_errors_end_the_session() {
    let failed = |error: AccessError| Report {
        result: SessionResult::CloseSession,
        log: AccessLog::Error(error),
        pipe_error: true,
    };
    let mut metrics = SessionMetrics::new();
    let mut pipe = pipe_of(16, true);
    assert_eq!(
        pipe.readable(&mut metrics, Some((vec![1], SocketResult::Error))),
        failed(AccessError::FrontRead)
    );
    assert!(metrics.service_stopped);
    assert_eq!(pipe.frontend_readiness, Readiness::new());

    let mut pipe = pipe_of(16, true);
    assert_eq!(
        pipe.backend_readable(&mut metrics, Some((vec![1], SocketResult::Error))),
        failed(AccessError::BackRead)
    );
    let mut pipe = pipe_of(16, true);
    pipe.backend_readable(&mut metrics, Some((vec![1, 2], SocketResult::Continue)));
    assert_eq!(
        pipe.writable(&mut metrics, 0, 1, SocketResult::Error),
        WriteStep::Done(failed(AccessError::FrontWrite))
    );
    let mut pipe = pipe_of(16, true);
    pipe.readable(&mut metrics, Some((vec![1, 2], SocketResult::Continue)));
    assert_eq!(
        pipe.backend_writable(&mut metrics, 0, 1, SocketResult::Error),
        WriteStep::Done(failed(AccessError::BackWrite))
    );
    let messages: Vec<&str> = [
        AccessError::FrontRead,
        AccessError::FrontWrite,
        AccessError::BackRead,
        AccessError::BackWrite,
        AccessError::FrontTimeout,
        AccessError::BackTimeout,
        AccessError::InvalidToken,
    ]
    .iter()
    .map(|e| e.message())
    .collect();
    assert_eq!(
        messages,
        vec![
            "front socket read error",
            "front socket write error",
            "back socket read error",
            "back socket write error",
            "front socket timeout",
            "back socket timeout",
            "invalid token timeout",
        ]
    );
}

#[test]
fn deliverable_data_keeps_the_session_open() {
    let mut pipe = pipe_of(16, true);
    let mut metrics = SessionMetrics::new();
    assert!(pipe.check_connections());
    pipe.backend_readable(&mut metrics, Some((b"bye".to_vec(), SocketResult::Continue)));
    let report = pipe.backend_readable(&mut metrics, Some((Vec::new(), SocketResult::Closed)));
    assert_eq!(report.result, SessionResult::Continue);
    assert_eq!(pipe.backend_hup().result, SessionResult::Continue);
    assert!(pipe.check_connections());
    assert!(matches!(
        pipe.writable(&mut metrics, 0, 3, SocketResult::Continue),
        WriteStep::Done(Report {
            result: SessionResult::CloseSession,
            log: AccessLog::Success,
            pipe_error: false
        })
    ));
    assert_eq!(metrics.bout, 3);
}

#[test]
fn a_session_without_backend_ends() {
    let mut pipe = pipe_of(16, false);
    assert!(!pipe.check_connections());
    assert!(!pipe.has_back_socket());
    pipe.set_back_socket();
    assert!(pipe.check_connections());
    assert_eq!(pipe.frontend_hup().log, AccessLog::Success);
    assert!(!pipe.check_connections());
}

#[test]
fn timers_close_the_session() {
    let mut pipe = pipe_of(16, true);
    pipe.frontend_timeout = Some(TimeoutContainer {
        order: TimerOrder::Keep,
    });
    let mut metrics = SessionMetrics::new();
    pipe.readable(&mut metrics, Some((vec![1], SocketResult::Continue)));
    assert_eq!(
        pipe.frontend_timeout.map(|t| t.order),
        Some(TimerOrder::Reset)
    );
    assert_eq!(pipe.backend_timeout, None);
    assert_eq!(
        pipe.timeout(Token(10)).log,
        AccessLog::Error(AccessError::FrontTimeout)
    );
    assert_eq!(
        pipe.frontend_timeout.map(|t| t.order),
        Some(TimerOrder::Forget)
    );
    assert_eq!(
        pipe.timeout(Token(11)).log,
        AccessLog::Error(AccessError::BackTimeout)
    );
    assert_eq!(
        pipe.timeout(Token(12)).log,
        AccessLog::Error(AccessError::InvalidToken)
    );
    pipe.cancel_timeouts();
    assert_eq!(
        pipe.frontend_timeout.map(|t| t.order),
        Some(TimerOrder::Cancel)
    );
}

fn access_context() -> AccessContext {
    AccessContext {
        frontend_peer: Some(SocketAddress::V4 {
            ip: 0x0A00_0001,
            port: 1234,
        }),
        backend_peer: Some(SocketAddress::V4 {
            ip: 0x0A00_0002,
            port: 80,
        }),
        transport: TransportProtocol::Tls1_3,
        response_time: "12ms".to_string(),
        service_time: "3ms".to_string(),
    }
}

#[test]
fn the_access_log_tells_of_the_session() {
    let mut pipe = pipe_of(16, true);
    pipe.set_cluster_id(Some("web".to_string()));
    let mut metrics = SessionMetrics::new();
    metrics.bin = 17;
    metrics.bout = 4;
    let mut tags: TextMap<String> = TextMap::new();
    tags.insert("owner".to_string(), "me".to_string());
    tags.insert("id".to_string(), "7".to_string());
    assert_eq!(
        pipe.log_request_success(&metrics, &access_context(), Some(&tags)),
        "00000000000000000000000001 web -\t10.0.0.1:1234 -> 10.0.0.2:80\t12ms 3ms 17 4\tid=7, owner=me\tTCP -"
    );
    pipe.set_backend_id(Some("web-0".to_string()));
    assert_eq!(
        pipe.log_request_error(&metrics, &access_context(), "front socket timeout"),
        "00000000000000000000000001 web web-0\t10.0.0.1:1234 -> 10.0.0.2:80\t12ms 3ms 17 4\tTCP - | front socket timeout"
    );
    let context = pipe.log_context();
    assert_eq!(context.cluster_id, Some("web".to_string()));
    assert!(!pipe.is_websocket());
}

#[test]
fn websockets_are_named_by_their_transport() {
    let pipe = |protocol: Protocol| {
        Pipe::new(
            Token(0),
            0x0112_2334_4556_6778_899A_ABBC_CDDE_EFF0,
            None,
            None,
            Some("GET /".to_string()),
            false,
            Buffer::with_capacity(1),
            Buffer::with_capacity(1),
            None,
            protocol,
        )
    };
    assert_eq!(pipe(Protocol::HTTP).protocol_string(TransportProtocol::Tcp), "WS");
    let secure = pipe(Protocol::HTTPS);
    assert_eq!(secure.protocol_string(TransportProtocol::Ssl2), "WSS-SSL2");
    assert_eq!(secure.protocol_string(TransportProtocol::Ssl3), "WSS-SSL3");
    assert_eq!(secure.protocol_string(TransportProtocol::Tls1_0), "WSS-TLS1.0");
    assert_eq!(secure.protocol_string(TransportProtocol::Tls1_1), "WSS-TLS1.1");
    assert_eq!(secure.protocol_string(TransportProtocol::Tls1_2), "WSS-TLS1.2");
    assert_eq!(secure.protocol_string(TransportProtocol::Tls1_3), "WSS-TLS1.3");
    assert!(secure.is_websocket());
    assert_eq!(
        secure.log_request_success(&SessionMetrics::new(), &access_context(), None),
        "0128HK8HAPCXW8K6NBQK6XXVZG - -\t10.0.0.1:1234 -> -\t12ms 3ms 0 0\t-\tWSS-TLS1.3 GET /"
    );
}

#[test]
fn events_belong_to_their_tokens() {
    let mut pipe = pipe_of(16, true);
    pipe.process_events(Token(10), Ready::readable());
    pipe.update_readiness(Token(11), Ready::hup());
    pipe.update_readiness(Token(12), Ready::error());
    assert_eq!(pipe.frontend_readiness.event, Ready::readable());
    assert_eq!(pipe.backend_readiness.event, Ready::hup());
    assert_eq!(pipe.tokens(), vec![Token(10), Token(11)]);
    assert_eq!(pipe.both_tokens(), Some((Token(10), Token(11))));
    assert_eq!(pipe.back_token(), vec![Token(11)]);
    assert_eq!(pipe.shutting_down(), ProtocolResult::Close);
    pipe.front_readiness().interest = Ready::empty();
    pipe.back_readiness().interest = Ready::empty();
    assert!(pipe.frontend_readiness.interest.is_empty());
    assert!(pipe.backend_readiness.interest.is_empty());
}

#[test]
fn a_turn_ends_when_there_is_nothing_to_do() {
    let mut pipe = pipe_of(16, true);
    let mut metrics = SessionMetrics::new();
    let mut turn = Turn::new();
    let over = |result: ProtocolResult| TurnStep::Finished {
        result,
        log: AccessLog::Silent,
        pipe_error: false,
    };
    assert_eq!(
        pipe.ready(&mut turn, SocketEvent::Start, &mut metrics),
        over(ProtocolResult::Continue)
    );
    pipe.process_events(Token(10), Ready::hup());
    assert_eq!(
        pipe.ready(&mut turn, SocketEvent::Start, &mut metrics),
        over(ProtocolResult::Close)
    );
    let mut pipe = pipe_of(16, true);
    pipe.process_events(Token(10), Ready::error());
    assert_eq!(
        pipe.ready(&mut turn, SocketEvent::Start, &mut metrics),
        over(ProtocolResult::Close)
    );
    assert!(pipe.frontend_readiness.interest.is_empty());
}

#[test]
fn a_turn_that_gets_nowhere_is_given_up() {
    let mut pipe = pipe_of(16, true);
    let mut metrics = SessionMetrics::new();
    let mut turn = Turn::new();
    // a backend that never runs dry and a client that takes all of it
    pipe.process_events(Token(10), Ready::writable());
    pipe.process_events(Token(11), Ready::readable());
    let mut event = SocketEvent::Start;
    let mut reads: u32 = 0;
    loop {
        event = match pipe.ready(&mut turn, event, &mut metrics) {
            TurnStep::ReadBack { .. } => {
                reads += 1;
                SocketEvent::Read(vec![7], SocketResult::Continue)
            }
            TurnStep::WriteFront => {
                SocketEvent::Wrote(pipe.data_for_frontend().len(), SocketResult::Continue)
            }
            TurnStep::Finished { result, .. } => {
                assert_eq!(result, ProtocolResult::Close);
                break;
            }
            other => panic!("unexpected step {:?}", other),
        };
        assert!(!turn.is_exhausted());
    }
    assert_eq!(reads, 100000);
    assert!(turn.is_exhausted());
    // a client that hangs up closes the session too, but the rounds do not run out
    pipe.process_events(Token(10), Ready::hup());
    match pipe.ready(&mut turn, SocketEvent::Start, &mut metrics) {
        TurnStep::Finished { result, .. } => assert_eq!(result, ProtocolResult::Close),
        other => panic!("unexpected step {:?}", other),
    }
    assert!(!turn.is_exhausted());
}

#[test]
fn headers_are_read_back() {
    let v4 = SocketAddress::V4 {
        ip: 0xC0A8_0001,
        port: 4433,
    };
    let v6 = SocketAddress::V6 {
        ip: 0x2001_0db8 << 96 | 1,
        port: 80,
        flowinfo: 0,
        scope_id: 0,
    };
    let bytes = HeaderV2::new(Command::Proxy, v4, v4).into_bytes();
    assert_eq!(bytes.len(), 28);
    assert_eq!(&bytes[..12], b"\r\n\r\n\0\r\nQUIT\n");
    assert_eq!(&bytes[12..16], &[0x21, 0x11, 0, 12]);
    assert_eq!(&bytes[16..], &[192, 168, 0, 1, 192, 168, 0, 1, 0x11, 0x51, 0x11, 0x51]);
    for n in 0..bytes.len() {
        assert!(matches!(
            parse_v2_header(&bytes[..n].to_vec()),
            Parsed::Incomplete
        ));
    }
    let mut more = bytes.clone();
    more.extend_from_slice(b"GET /");
    match parse_v2_header(&more) {
        Parsed::Header(header, n) => {
            assert_eq!(n, 28);
            assert_eq!(header.command, Command::Proxy);
            assert_eq!(header.into_bytes(), bytes);
        }
        other => panic!("unexpected result {:?}", other),
    }
    let mixed = HeaderV2::new(Command::Local, v4, v6);
    match &mixed.addr {
        ProxyAddr::IPv6Addr { src_ip, dst_ip, .. } => {
            assert_eq!(*src_ip, 0xFFFF_C0A8_0001);
            assert_eq!(*dst_ip, 0x2001_0db8 << 96 | 1);
        }
        other => panic!("unexpected addresses {:?}", other),
    }
    let bytes = mixed.into_bytes();
    assert_eq!(bytes.len(), 52);
    assert!(matches!(parse_v2_header(&bytes), Parsed::Header(_, 52)));
    let unix = HeaderV2 {
        command: Command::Proxy,
        family: 0x31,
        addr: ProxyAddr::UnixAddr {
            src: vec![1; 108],
            dst: vec![2; 108],
        },
    };
    assert!(matches!(
        parse_v2_header(&unix.into_bytes()),
        Parsed::Header(
            HeaderV2 {
                addr: ProxyAddr::UnixAddr { .. },
                ..
            },
            232
        )
    ));
}

#[test]
fn other_bytes_are_no_header() {
    let local = HeaderV2 {
        command: Command::Local,
        family: 0,
        addr: ProxyAddr::AfUnspec,
    }
    .into_bytes();
    assert_eq!(local.len(), 16);
    assert!(matches!(
        parse_v2_header(&local),
        Parsed::Header(
            HeaderV2 {
                addr: ProxyAddr::AfUnspec,
                ..
            },
            16
        )
    ));
    assert!(matches!(
        parse_v2_header(&b"GET / HTTP/1.1".to_vec()),
        Parsed::Refused
    ));
    let mut wrong = local.clone();
    wrong[12] = 0x22;
    assert!(matches!(parse_v2_header(&wrong), Parsed::Refused));
    let mut family = local.clone();
    family[13] = 0x41;
    assert!(matches!(parse_v2_header(&family), Parsed::Refused));
    let mut short = local;
    short[13] = 0x11;
    assert!(matches!(parse_v2_header(&short), Parsed::Refused));
}

#[test]
fn nothing_behind_the_header_is_read() {
    let v6 = SocketAddress::V6 {
        ip: 1,
        port: 80,
        flowinfo: 0,
        scope_id: 0,
    };
    let mut stream = HeaderV2::new(Command::Proxy, v6, v6).into_bytes();
    stream.extend_from_slice(b"the first bytes of the client");
    let mut expect = ExpectProxyProtocol::new(Token(3), 5);
    let mut metrics = SessionMetrics::new();
    let mut at = 0;
    let mut result = ProtocolResult::Continue;
    while result == ProtocolResult::Continue {
        let n = expect.room().min(7);
        let report = expect.readable(
            &mut metrics,
            stream[at..at + n].to_vec(),
            SocketResult::Continue,
        );
        at += n;
        result = report.result;
    }
    assert_eq!(result, ProtocolResult::Upgrade);
    assert_eq!(at, 52);
    assert_eq!(metrics.bin, 52);
    assert_eq!(expect.log_context().request_id, 5);
    expect.update_readiness(Token(3), Ready::writable());
    expect.readiness().event.insert(Ready::hup());
    let pipe = expect.into_pipe(
        Buffer::with_capacity(10),
        Buffer::with_capacity(10),
        true,
        Some(Token(4)),
        None,
    );
    assert_eq!(pipe.both_tokens(), Some((Token(3), Token(4))));
    assert_eq!(
        pipe.frontend_readiness.event,
        Ready::writable().union(Ready::hup())
    );
}

#[test]
fn a_header_is_read_however_its_bytes_come() {
    let v4 = SocketAddress::V4 {
        ip: 0x0A00_0001,
        port: 80,
    };
    let addresses = HeaderV2::new(Command::Proxy, v4, v4);
    let mut stream = addresses.into_bytes();
    // the lower half of the family byte names the transport
    stream[13] = 0x12;
    stream.extend_from_slice(b"the first bytes of the client");
    let endings = [
        SocketResult::WouldBlock,
        SocketResult::Continue,
        SocketResult::Closed,
    ];
    for size in 1..29 {
        let mut expect = ExpectProxyProtocol::new(Token(3), 5);
        let mut metrics = SessionMetrics::new();
        let mut at = 0;
        let mut reads = 0;
        let mut result = ProtocolResult::Continue;
        while result == ProtocolResult::Continue {
            assert!(expect.addresses.is_none());
            let n = expect.room().min(size);
            let bytes = stream[at..at + n].to_vec();
            let report = expect.readable(&mut metrics, bytes, endings[reads % 3]);
            at += n;
            reads += 1;
            result = report.result;
        }
        assert_eq!(result, ProtocolResult::Upgrade);
        assert_eq!(at, 28);
        assert!(matches!(
            expect.addresses,
            Some(ProxyAddr::IPv4Addr {
                src_ip: 0x0A00_0001,
                dst_ip: 0x0A00_0001,
                src_port: 80,
                dst_port: 80,
            })
        ));
    }
}

#[test]
fn a_header_that_never_ends_is_an_error() {
    let mut expect = ExpectProxyProtocol::new(Token(0), 1);
    let mut metrics = SessionMetrics::new();
    let mut stream = b"\r\n\r\n\0\r\nQUIT\n\x20\x11\xff\xff".to_vec();
    stream.resize(232, 0);
    let mut at = 0;
    let mut last = ExpectReport {
        result: ProtocolResult::Continue,
        error: false,
    };
    let mut windows = Vec::new();
    while at < 232 {
        let n = expect.room();
        windows.push(n);
        last = expect.readable(
            &mut metrics,
            stream[at..at + n].to_vec(),
            SocketResult::Continue,
        );
        at += n;
    }
    assert_eq!(windows, vec![28, 24, 180]);
    assert_eq!(
        last,
        ExpectReport {
            result: ProtocolResult::Continue,
            error: true
        }
    );
    assert!(metrics.service_stopped);
    assert_eq!(expect.frontend_readiness, Readiness::new());
}

#[test]
fn waiting_for_a_header_goes_by_turns() {
    let mut expect = ExpectProxyProtocol::new(Token(0), 1);
    let mut metrics = SessionMetrics::new();
    let mut turn = ExpectTurn {
        counter: 0,
        pending: Ready::empty(),
    };
    let over = |result: ProtocolResult| {
        ExpectStep::Finished(ExpectReport {
            result,
            error: false,
        })
    };
    assert_eq!(
        expect.ready(&mut turn, ExpectEvent::Start, &mut metrics),
        over(ProtocolResult::Continue)
    );
    expect.update_readiness(Token(0), Ready::readable());
    assert_eq!(
        expect.ready(&mut turn, ExpectEvent::Start, &mut metrics),
        ExpectStep::Read { room: 28 }
    );
    assert_eq!(
        expect.ready(
            &mut turn,
            ExpectEvent::Read(b"\r\n".to_vec(), SocketResult::WouldBlock),
            &mut metrics
        ),
        over(ProtocolResult::Continue)
    );
    expect.update_readiness(Token(0), Ready::readable());
    assert_eq!(
        expect.ready(&mut turn, ExpectEvent::Start, &mut metrics),
        ExpectStep::Read { room: 26 }
    );
    assert_eq!(
        expect.ready(
            &mut turn,
            ExpectEvent::Read(b"GET".to_vec(), SocketResult::Continue),
            &mut metrics
        ),
        ExpectStep::Finished(ExpectReport {
            result: ProtocolResult::Close,
            error: true
        })
    );
    let mut gone = ExpectProxyProtocol::new(Token(0), 1);
    gone.update_readiness(Token(0), Ready::hup());
    assert_eq!(
        gone.ready(&mut turn, ExpectEvent::Start, &mut metrics),
        over(ProtocolResult::Close)
    );
    let mut failing = ExpectProxyProtocol::new(Token(0), 1);
    let report = failing.readable(&mut metrics, Vec::new(), SocketResult::Error);
    assert_eq!(report.result, ProtocolResult::Close);
    assert!(report.error);
    assert_eq!(failing.tokens(), vec![Token(0)]);
    assert!(!turn.is_exhausted());
    // what can be neither read nor given up stays until the rounds run out
    let mut stuck = ExpectProxyProtocol::new(Token(0), 1);
    stuck.frontend_readiness.interest = Ready::writable();
    stuck.update_readiness(Token(0), Ready::writable());
    assert_eq!(
        stuck.ready(&mut turn, ExpectEvent::Start, &mut metrics),
        over(ProtocolResult::Close)
    );
    assert!(turn.is_exhausted());
}

#[test]
fn a_handshake_goes_by_turns() {
    let reading = TlsStatus {
        wants_read: true,
        wants_write: false,
        is_handshaking: true,
    };
    let writing = TlsStatus {
        wants_read: false,
        wants_write: true,
        is_handshaking: true,
    };
    let finished = TlsStatus {
        wants_read: true,
        wants_write: false,
        is_handshaking: false,
    };
    let mut tls = TlsHandshake::new(Token(2), 9);
    let mut turn = TlsTurn::new();
    assert_eq!(
        tls.ready(&mut turn, TlsEvent::Start, reading),
        TlsStep::Finished(ProtocolResult::Continue)
    );
    tls.process_events(Token(2), Ready::readable().union(Ready::writable()));
    assert_eq!(tls.ready(&mut turn, TlsEvent::Start, reading), TlsStep::ReadTls);
    assert_eq!(
        tls.ready(&mut turn, TlsEvent::Read(TlsIo::Moved), reading),
        TlsStep::Process
    );
    // the engine has something to send: the next round writes
    assert_eq!(
        tls.ready(&mut turn, TlsEvent::Processed(true), writing),
        TlsStep::WriteTls
    );
    assert_eq!(
        tls.ready(&mut turn, TlsEvent::Wrote(TlsIo::Moved), writing),
        TlsStep::Process
    );
    assert_eq!(
        tls.ready(&mut turn, TlsEvent::Processed(true), finished),
        TlsStep::Finished(ProtocolResult::Upgrade)
    );
    assert_eq!(tls.log_context().request_id, 9);
}

#[test]
fn a_handshake_can_fail() {
    let reading = TlsStatus {
        wants_read: true,
        wants_write: false,
        is_handshaking: true,
    };
    let start = || {
        let mut tls = TlsHandshake::new(Token(2), 9);
        tls.update_readiness(Token(2), Ready::readable());
        let mut turn = TlsTurn::new();
        assert_eq!(tls.ready(&mut turn, TlsEvent::Start, reading), TlsStep::ReadTls);
        (tls, turn)
    };
    let closed = TlsStep::Finished(ProtocolResult::Close);
    let (mut tls, mut turn) = start();
    assert_eq!(tls.ready(&mut turn, TlsEvent::Read(TlsIo::Nothing), reading), closed);
    let (mut tls, mut turn) = start();
    assert_eq!(tls.ready(&mut turn, TlsEvent::Read(TlsIo::Failed), reading), closed);
    let (mut tls, mut turn) = start();
    assert_eq!(
        tls.ready(&mut turn, TlsEvent::Read(TlsIo::WouldBlock), reading),
        TlsStep::Process
    );
    assert_eq!(tls.ready(&mut turn, TlsEvent::Processed(false), reading), closed);
    let (mut tls, mut turn) = start();
    tls.ready(&mut turn, TlsEvent::Read(TlsIo::WouldBlock), reading);
    assert_eq!(
        tls.ready(&mut turn, TlsEvent::Processed(true), reading),
        TlsStep::Finished(ProtocolResult::Continue)
    );
    assert!(!tls.frontend_readiness.event.readable);
    let mut gone = TlsHandshake::new(Token(2), 9);
    gone.update_readiness(Token(2), Ready::hup());
    assert_eq!(gone.ready(&mut TlsTurn::new(), TlsEvent::Start, reading), closed);
    // a client that hangs up amid the turn leaves something to do until the rounds run out
    let (mut tls, mut turn) = start();
    tls.frontend_readiness.interest.insert(Ready::hup());
    tls.update_readiness(Token(2), Ready::hup());
    tls.ready(&mut turn, TlsEvent::Read(TlsIo::WouldBlock), reading);
    assert!(!turn.is_exhausted());
    assert_eq!(tls.ready(&mut turn, TlsEvent::Processed(true), reading), closed);
    assert!(turn.is_exhausted());
}

#[test]
fn parsers_do_not_wait_for_more() {
    let digits = |b: u8| b.is_ascii_digit();
    assert_eq!(take_while_complete(&b"123a".to_vec(), digits), 3);
    assert_eq!(take_while_complete(&b"123".to_vec(), digits), 3);
    assert_eq!(take_while_complete(&b"a".to_vec(), digits), 0);
    assert_eq!(take_while1_complete(&b"a".to_vec(), digits), None);
    assert_eq!(take_while1_complete(&b"1a".to_vec(), digits), Some(1));
    assert_eq!(take_while1_complete(&Vec::new(), digits), Some(0));
    assert!(empty(&Vec::new()));
    assert!(!empty(&vec![0]));
}
