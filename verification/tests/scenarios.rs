use std::time::{Duration, Instant};

use sozu_core::address::SocketAddress;
use sozu_core::buffer::Buffer;
use sozu_core::command::orders::{OrderEvent, OrderStep};
use sozu_core::command::server::CommandServer;
use sozu_core::command::types::{
    Advancement, RequestIdentifier, RequestStatus, RunState, Success, WorkerInfo, WorkerResponse,
};
use sozu_core::config::environment::{CurrentDir, Environment};
use sozu_core::protocol::pipe::steps::AccessLog;
use sozu_core::protocol::pipe::turn::{SocketEvent, Turn, TurnStep};
use sozu_core::protocol::pipe::Pipe;
use sozu_core::protocol::proxy_protocol::expect::ExpectProxyProtocol;
use sozu_core::protocol::proxy_protocol::header::{Command, HeaderV2, ProxyAddr};
use sozu_core::proxy::{ActivateListener, ListenerType, ProxyRequestOrder};
use sozu_core::ready::{Ready, Token};
use sozu_core::session::{
    Protocol, ProtocolResult, SessionMetrics, SessionState, SocketResult,
};
use sozu_core::worker::Worker;

#[derive(PartialEq, Eq, Debug)]
enum State {
    Success,
    Fail,
    Undecided,
}

fn repeat_until_error_or<F>(times: usize, test_description: &str, test: F) -> State
where
    F: Fn() -> State + Sized,
{
    println!("{}", test_description);
    for i in 1..=times {
        let state = test();
        match state {
            State::Success => {}
            State::Fail => {
                println!("Test not successful after: {} iterations", i);
                return State::Fail;
            }
            State::Undecided => {
                println!("Test interupted after: {} iterations", i);
                return State::Undecided;
            }
        }
    }
    println!("Test successful after: {} iterations", times);
    State::Success
}

/// One end of a connection, in memory.
struct Peer {
    /// what the peer has sent and the proxy has not read yet
    outbox: Vec<u8>,
    /// what the peer has received
    inbox: Vec<u8>,
    closed: bool,
}

impl Peer {
    fn new() -> Peer {
        Peer {
            outbox: Vec::new(),
            inbox: Vec::new(),
            closed: false,
        }
    }

    fn read(&mut self, room: usize) -> SocketEvent {
        let n = room.min(self.outbox.len());
        let bytes: Vec<u8> = self.outbox.drain(..n).collect();
        let res = if !bytes.is_empty() {
            SocketResult::Continue
        } else if self.closed {
            SocketResult::Closed
        } else {
            SocketResult::WouldBlock
        };
        SocketEvent::Read(bytes, res)
    }

    fn write(&mut self, data: &[u8]) -> SocketEvent {
        self.inbox.extend_from_slice(data);
        SocketEvent::Wrote(data.len(), SocketResult::Continue)
    }
}

fn run_turn(
    pipe: &mut Pipe,
    metrics: &mut SessionMetrics,
    front: &mut Peer,
    back: &mut Peer,
) -> (ProtocolResult, AccessLog) {
    let mut turn = Turn::new();
    let mut event = SocketEvent::Start;
    loop {
        event = match pipe.ready(&mut turn, event, metrics) {
            TurnStep::ReadFront { room } => front.read(room),
            TurnStep::ReadBack { room } => back.read(room),
            TurnStep::WriteFront => {
                let data = pipe.data_for_frontend().clone();
                front.write(&data)
            }
            TurnStep::WriteBack => {
                let data = pipe.data_for_backend().clone();
                back.write(&data)
            }
            TurnStep::Finished { result, log, .. } => return (result, log),
        };
    }
}

fn environment() -> Environment {
    Environment {
        files: Vec::new(),
        answer_404: String::from("404"),
        answer_503: String::from("503"),
        current_dir: CurrentDir::Known(String::from("/run")),
        current_dir_shown: String::from("\"/run\""),
    }
}

fn try_issue_810_timeout() -> State {
    let front_address = SocketAddress::V4 {
        ip: 0x7F00_0001,
        port: 2001,
    };
    let back_address = SocketAddress::V4 {
        ip: 0x7F00_0001,
        port: 2002,
    };
    let (config, listeners) = Worker::empty_config(&environment());
    if !listeners.http.is_empty() || config.worker_automatic_restart {
        return State::Fail;
    }
    let mut worker = Worker::start_new_worker(String::from("WORKER"), config);
    let mut sent = Vec::new();
    sent.push(worker.send_proxy_request(ProxyRequestOrder::AddHttpListener(
        Worker::default_http_listener(front_address),
    )));
    sent.push(
        worker.send_proxy_request(ProxyRequestOrder::ActivateListener(ActivateListener {
            address: front_address,
            proxy: ListenerType::HTTP,
            from_scm: false,
        })),
    );
    sent.push(
        worker.send_proxy_request(ProxyRequestOrder::AddCluster(Worker::default_cluster(
            String::from("cluster_0"),
        ))),
    );
    sent.push(
        worker.send_proxy_request(ProxyRequestOrder::AddHttpFrontend(
            Worker::default_http_frontend(String::from("cluster_0"), front_address),
        )),
    );
    sent.push(
        worker.send_proxy_request(ProxyRequestOrder::AddBackend(Worker::default_backend(
            String::from("cluster_0"),
            String::from("cluster_0-0"),
            back_address,
        ))),
    );
    for (i, request) in sent.iter().enumerate() {
        if request.id != format!("ID_{}", i) {
            return State::Fail;
        }
    }

    let mut pipe = Pipe::new(
        Token(0),
        1,
        Some(String::from("cluster_0")),
        Some(String::from("cluster_0-0")),
        None,
        true,
        Buffer::with_capacity(16393),
        Buffer::with_capacity(16393),
        None,
        Protocol::TCP,
    );
    pipe.set_back_token(Token(1));
    let mut metrics = SessionMetrics::new();
    let mut client = Peer::new();
    let mut backend = Peer::new();

    let request =
        b"GET /api HTTP/1.1\r\nHost: localhost\r\nConnection: keep-alive\r\nContent-Length: 4\r\n\r\nping";
    let response =
        b"HTTP/1.1 200 OK\r\nConnection: keep-alive\r\nContent-Length: 5\r\n\r\npong0";
    client.outbox.extend_from_slice(request);
    pipe.update_readiness(Token(0), Ready::readable().union(Ready::writable()));
    pipe.update_readiness(Token(1), Ready::writable());
    if run_turn(&mut pipe, &mut metrics, &mut client, &mut backend).0 != ProtocolResult::Continue {
        return State::Fail;
    }
    if backend.inbox != request {
        return State::Fail;
    }
    backend.outbox.extend_from_slice(response);
    pipe.update_readiness(Token(1), Ready::readable());
    if run_turn(&mut pipe, &mut metrics, &mut client, &mut backend).0 != ProtocolResult::Continue {
        return State::Fail;
    }
    if client.inbox != response {
        return State::Fail;
    }

    let mut main = CommandServer::new(false, None, String::new());
    main.workers.push(WorkerInfo {
        id: 0,
        pid: 4242,
        run_state: RunState::Running,
    });
    let identifier = RequestIdentifier {
        client: String::from("CL"),
        request: String::from("ID_5"),
    };
    let stop = ProxyRequestOrder::SoftStop;
    let (requests, mut collector) =
        match main.worker_order(&identifier, &stop, None, OrderEvent::Accepted, 7) {
            OrderStep::Send(sent) => (sent.requests, sent.collector),
            _ => return State::Fail,
        };
    let start = Instant::now();

    // the worker closes its idle session at once
    backend.closed = true;
    pipe.update_readiness(Token(1), Ready::readable().union(Ready::hup()));
    let (result, log) = run_turn(&mut pipe, &mut metrics, &mut client, &mut backend);
    if result != ProtocolResult::Close || log != AccessLog::Success {
        return State::Fail;
    }

    let mut success = main.workers[0].run_state == RunState::Stopping;
    for (worker_id, request) in requests {
        let received = collector.receive(
            worker_id,
            WorkerResponse {
                id: request.id,
                status: RequestStatus::Done,
                error: None,
                content: None,
            },
        );
        success = success && received.close_worker == Some(0) && received.finished;
    }
    success = success
        && collector.stop_main
        && collector.finish() == Advancement::Done(Success::WorkerOrder(None));
    let duration = Instant::now().duration_since(start);

    if !success || duration > Duration::from_millis(100) {
        State::Fail
    } else {
        State::Success
    }
}

#[test]
fn test_issue_810_timeout() {
    assert_eq!(
        repeat_until_error_or(
            1000,
            "issue 810: shutdown struggles until session timeout\n(fixed)",
            try_issue_810_timeout
        ),
        State::Success
    );
}

// Flow diagram of the test below
//                [connect]   [send proxy protocol]
//upfront proxy  ----------------------X
//              /     |           |
//  sozu     ---------v-----------v----X
#[test]
fn middleware_should_receive_proxy_protocol_header_from_an_upfront_middleware() {
    let src_addr = SocketAddress::V4 {
        ip: 125 << 24 | 25 << 16 | 10 << 8 | 1,
        port: 8080,
    };
    let dst_addr = SocketAddress::V4 {
        ip: 10 << 24 | 4 << 16 | 5 << 8 | 8,
        port: 4200,
    };
    let mut stream = HeaderV2::new(Command::Local, src_addr, dst_addr).into_bytes();

    let mut session_metrics = SessionMetrics::new();
    let mut expect_pp = ExpectProxyProtocol::new(Token(0), 1);

    let mut res = ProtocolResult::Continue;
    while res == ProtocolResult::Continue {
        let n = expect_pp.room().min(stream.len());
        let bytes: Vec<u8> = stream.drain(..n).collect();
        let socket_result = if bytes.is_empty() {
            SocketResult::WouldBlock
        } else {
            SocketResult::Continue
        };
        res = expect_pp
            .readable(&mut session_metrics, bytes, socket_result)
            .result;
    }

    if res != ProtocolResult::Upgrade {
        panic!(
            "Should receive a complete proxy protocol header, res = {:?}",
            res
        );
    };
    match expect_pp.addresses {
        Some(ProxyAddr::IPv4Addr {
            src_ip,
            src_port,
            dst_ip,
            dst_port,
        }) => {
            assert_eq!((src_ip, src_port), (0x7D19_0A01, 8080));
            assert_eq!((dst_ip, dst_port), (0x0A04_0508, 4200));
        }
        other => panic!("unexpected addresses {:?}", other),
    }
}
