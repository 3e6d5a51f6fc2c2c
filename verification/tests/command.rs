use sozu_core::command::collect::LoadCollector;
use sozu_core::command::load::{LoadEvent, LoadStep, StateLoader};
use sozu_core::command::orders::{recount, with_context, OrderEvent, OrderSent, OrderStep, Recount};
use sozu_core::command::progress::Progress;
use sozu_core::command::route::{
    delivered, return_error, return_processing, tell_at_once, Delivery, Outcome, Task,
};
use sozu_core::command::save::{frame, length_of_frames, split_frames, sync_after, Written};
use sozu_core::command::server::{CommandServer, InFlight};
use sozu_core::command::types::{
    Advancement, CommandRequest, CommandRequestOrder, FrontendFilters, RequestIdentifier,
    RequestStatus, ResponseContent, RunState, Success, WorkerContent, WorkerInfo, WorkerResponse,
};
use sozu_core::command::workers::{
    soft_stop_answer, sockets_answer, MainUpgrade, SocketsStep, SoftStopStep, UpgradeEvent,
    UpgradeStep, WorkerUpgrade,
};
use sozu_core::config::environment::{CurrentDir, Environment};
use sozu_core::proxy::{
    HttpFrontend, MetricsConfiguration, ProxyRequestOrder, QueryMetricsOptions, RemoveBackend,
};
use sozu_core::address::SocketAddress;
use sozu_core::worker::{set_no_close_exec, Worker};

fn address(port: u16) -> SocketAddress {
    SocketAddress::V4 {
        ip: 0x7F00_0001,
        port,
    }
}

fn worker(id: u32, run_state: RunState) -> WorkerInfo {
    WorkerInfo {
        id,
        pid: 1000 + id as i32,
        run_state,
    }
}

fn server() -> CommandServer {
    let mut server = CommandServer::new(
        true,
        Some("/var/state.json".to_string()),
        "/etc/config.toml".to_string(),
    );
    server.workers = vec![
        worker(0, RunState::Running),
        worker(1, RunState::Stopped),
        worker(2, RunState::NotAnswering),
        worker(3, RunState::Stopping),
    ];
    server.next_worker_id = 4;
    server
}

fn identifier() -> RequestIdentifier {
    RequestIdentifier {
        client: "CL-7".to_string(),
        request: "ID-9".to_string(),
    }
}

fn request(order: CommandRequestOrder) -> CommandRequest {
    CommandRequest {
        id: "ID-9".to_string(),
        version: 0,
        worker_id: Some(2),
        order,
    }
}

fn proxy_request(order: ProxyRequestOrder) -> CommandRequest {
    request(CommandRequestOrder::Proxy(Box::new(order)))
}

fn answer(id: &str, status: RequestStatus, error: Option<&str>) -> WorkerResponse {
    WorkerResponse {
        id: id.to_string(),
        status,
        error: error.map(|e| e.to_string()),
        content: None,
    }
}

fn content(id: &str, content: WorkerContent) -> WorkerResponse {
    WorkerResponse {
        content: Some(content),
        ..answer(id, RequestStatus::Done, None)
    }
}

/// An order that the state took and that was saved.
fn sent(
    server: &mut CommandServer,
    order: &ProxyRequestOrder,
    worker_id: Option<u32>,
    task: u64,
) -> OrderSent {
    let event = OrderEvent::Saved(Written::Messages(0));
    match server.worker_order(&identifier(), order, worker_id, event, task) {
        OrderStep::Send(sent) => sent,
        other => panic!("unexpected step {:?}", other),
    }
}

#[test]
fn requests_are_routed() {
    let server = server();
    let task = |r: CommandRequest| server.handle_client_request("CL-7".to_string(), r).1;
    let (named, _) = server.handle_client_request(
        "CL-7".to_string(),
        request(CommandRequestOrder::DumpState),
    );
    assert_eq!(named, identifier());
    assert!(matches!(
        task(request(CommandRequestOrder::SaveState { path: "p".to_string() })),
        Task::SaveState(path) if path == "p"
    ));
    assert!(matches!(
        task(request(CommandRequestOrder::UpgradeWorker(5))),
        Task::UpgradeWorker(5)
    ));
    assert!(matches!(
        task(proxy_request(ProxyRequestOrder::ConfigureMetrics(
            MetricsConfiguration::Clear
        ))),
        Task::ConfigureMetrics(MetricsConfiguration::Clear)
    ));
    assert!(matches!(
        task(proxy_request(ProxyRequestOrder::QueryClustersHashes)),
        Task::Query(ProxyRequestOrder::QueryClustersHashes)
    ));
    assert!(matches!(
        task(proxy_request(ProxyRequestOrder::Logging("debug".to_string()))),
        Task::SetLogging(filter) if filter == "debug"
    ));
    assert!(matches!(
        task(proxy_request(ProxyRequestOrder::SoftStop)),
        Task::WorkerOrder(ProxyRequestOrder::SoftStop, Some(2))
    ));
    let unread = "{\"type\":\"DEACTIVATE_LISTENER\"}";
    assert!(matches!(
        task(proxy_request(ProxyRequestOrder::Other(unread.to_string()))),
        Task::WorkerOrder(ProxyRequestOrder::Other(text), Some(2)) if text == unread
    ));
}

#[test]
fn outcomes_are_told() {
    assert_eq!(
        tell_at_once(Outcome::Done(Success::WorkerLaunched(3))),
        Some(Advancement::Done(Success::WorkerLaunched(3)))
    );
    assert_eq!(
        tell_at_once(Outcome::Failed("oops".to_string())),
        Some(Advancement::Error("oops".to_string()))
    );
    assert_eq!(tell_at_once(Outcome::Later), None);
    assert_eq!(
        tell_at_once(server().set_logging_level("debug".to_string(), None)),
        Some(Advancement::Done(Success::Logging("debug".to_string())))
    );
    assert_eq!(
        tell_at_once(server().set_logging_level("debug".to_string(), Some("unset".to_string()))),
        Some(Advancement::Error("unset".to_string()))
    );
    assert_eq!(
        return_error(None),
        Advancement::Error("No context provided for this error".to_string())
    );
    let server = server();
    let response = server.notify_advancement_to_client(
        &identifier(),
        Advancement::Done(server.list_workers()),
        "listed".to_string(),
    );
    assert_eq!(response.id, "ID-9");
    assert_eq!(response.status, RequestStatus::Done);
    assert_eq!(response.message, "listed");
    assert_eq!(
        response.content,
        Some(ResponseContent::Workers(server.workers.clone()))
    );
    let response = server.notify_advancement_to_client(
        &identifier(),
        return_processing(Progress::Asking),
        String::new(),
    );
    assert_eq!(response.status, RequestStatus::Processing);
    assert_eq!(response.message, "Query order was sent to the workers...");
    let response = server.notify_advancement_to_client(
        &identifier(),
        Advancement::Error("bad".to_string()),
        String::new(),
    );
    assert_eq!(response.status, RequestStatus::Error);
    assert_eq!(response.content, None);
    assert_eq!(
        delivered(&identifier(), Delivery::Sent),
        Ok(Success::NotifiedClient("CL-7".to_string()))
    );
    assert_eq!(
        delivered(&identifier(), Delivery::Refused("closed".to_string())),
        Err("Could not notify client CL-7 about request ID-9: closed".to_string())
    );
    assert_eq!(
        delivered(&identifier(), Delivery::NoClient),
        Err("Could not find client CL-7".to_string())
    );
}

#[test]
fn progress_is_told_in_words() {
    let text = |progress: Progress| progress.to_text();
    assert_eq!(text(Progress::SavingState), "Saving state to file");
    assert_eq!(
        text(Progress::SendingOrder(Some(2))),
        "Sending the order to worker 2"
    );
    assert_eq!(
        text(Progress::SendingOrder(None)),
        "Sending the order to all workers"
    );
    assert_eq!(
        text(Progress::LaunchingWorker),
        "Sending configuration orders to the new worker..."
    );
    assert_eq!(
        text(Progress::UpgradingMain),
        "The proxy is processing the upgrade command."
    );
    assert_eq!(
        text(Progress::UpgradingWorker),
        "Sending configuration orders to the worker"
    );
    assert_eq!(
        text(Progress::StoppingWorker),
        "Processing softstop responses from the workers..."
    );
    assert_eq!(
        text(Progress::Reloading),
        "Reloading configuration, sending config messages to workers..."
    );
    assert_eq!(
        text(Progress::AskingForStatus),
        "Sending status requests to workers..."
    );
}

#[test]
fn subscribers_are_kept_once() {
    let mut server = server();
    assert_eq!(
        server.subscribe_events("CL-1"),
        Success::SubscribeEvent("CL-1".to_string())
    );
    server.subscribe_events("CL-2");
    server.subscribe_events("CL-1");
    assert_eq!(server.event_subscribers, vec!["CL-1", "CL-2"]);
}

#[test]
fn orders_go_to_active_workers() {
    let mut server = server();
    let order = ProxyRequestOrder::RemoveBackend(RemoveBackend {
        cluster_id: "c".to_string(),
        backend_id: "b".to_string(),
        address: address(1),
    });
    let sent = sent(&mut server, &order, None, 12);
    let mut collector = sent.collector;
    assert!(tell_at_once(sent.outcome).is_none());
    assert_eq!(sent.recount, Recount::Backends);
    let sent = sent.requests;
    let ids: Vec<(u32, String)> = sent.iter().map(|(w, r)| (*w, r.id.clone())).collect();
    assert_eq!(
        ids,
        vec![
            (0, "CL-7-worker-0".to_string()),
            (2, "CL-7-worker-2".to_string())
        ]
    );
    assert_eq!(
        server.in_flight.get(&"CL-7-worker-2".to_string()),
        Some(&InFlight {
            task: 12,
            expected: 1
        })
    );
    assert_eq!(server.workers[0].run_state, RunState::Running);
    assert!(!collector.stop_main);

    let received = collector.receive(0, answer("CL-7-worker-0", RequestStatus::Processing, None));
    assert!(!received.finished);
    let received = collector.receive(0, answer("CL-7-worker-0", RequestStatus::Done, None));
    assert!(!received.finished && received.close_worker.is_none());
    let received = collector.receive(
        2,
        answer("CL-7-worker-2", RequestStatus::Error, Some("no \"backend\"")),
    );
    assert!(received.finished);
    assert_eq!(
        collector.finish(),
        Advancement::Error("0: OK, 2: Some(\"no \\\"backend\\\"\")".to_string())
    );
    assert_eq!(recount(&order), Recount::Backends);
    assert_eq!(recount(&ProxyRequestOrder::Status), Recount::Nothing);
    assert_eq!(
        recount(&ProxyRequestOrder::AddHttpFrontend(
            Worker::default_http_frontend("c".to_string(), address(1))
        )),
        Recount::Frontends
    );
}

#[test]
fn an_order_can_be_for_one_worker() {
    let mut server = server();
    let stop = sent(&mut server, &ProxyRequestOrder::HardStop, Some(2), 1);
    assert_eq!(stop.requests.len(), 1);
    assert_eq!(stop.collector.stopping, vec![2]);
    assert!(!stop.collector.stop_main);
    assert_eq!(server.workers[2].run_state, RunState::Stopping);
    assert_eq!(server.workers[0].run_state, RunState::Running);
    let nobody = sent(&mut server, &ProxyRequestOrder::Status, Some(2), 1);
    assert!(nobody.requests.is_empty());
    assert_eq!(
        tell_at_once(nobody.outcome),
        Some(Advancement::Error("no worker found".to_string()))
    );
    assert_eq!(nobody.recount, Recount::Nothing);
    assert_eq!(
        nobody.collector.finish(),
        Advancement::Done(Success::WorkerOrder(Some(2)))
    );
}

#[test]
fn stopped_workers_get_no_more_orders() {
    let mut server = server();
    let first = sent(&mut server, &ProxyRequestOrder::SoftStop, None, 1);
    assert_eq!(first.requests.len(), 2);
    assert!(first.collector.stop_main);
    let second = sent(&mut server, &ProxyRequestOrder::SoftStop, None, 1);
    assert!(second.requests.is_empty());
}

#[test]
fn the_state_is_saved_before_orders() {
    let mut server = server();
    let mut step = |server: &mut CommandServer, event: OrderEvent| {
        server.worker_order(&identifier(), &ProxyRequestOrder::SoftStop, None, event, 1)
    };
    assert!(matches!(
        step(&mut server, OrderEvent::Accepted),
        OrderStep::Save(path) if path == "/var/state.json"
    ));
    assert!(matches!(
        step(&mut server, OrderEvent::Refused("unknown cluster".to_string())),
        OrderStep::Failed(text) if text == "Could not execute order on the state: unknown cluster"
    ));
    assert!(matches!(
        step(
            &mut server,
            OrderEvent::Saved(Written::NotOpened("denied".to_string()))
        ),
        OrderStep::Failed(text)
            if text == "Could not create file to automatically save the state: denied"
    ));
    assert!(matches!(
        step(
            &mut server,
            OrderEvent::Saved(Written::NotSynced("full".to_string()))
        ),
        OrderStep::Failed(text)
            if text == "could not save state automatically to /var/state.json: \
                        Could not write the state onto the state file: \
                        Failed to sync the saved state file: full"
    ));
    assert_eq!(server.workers[0].run_state, RunState::Running);
    assert!(matches!(
        step(&mut server, OrderEvent::Saved(Written::Messages(3))),
        OrderStep::Send(_)
    ));
    assert_eq!(server.workers[0].run_state, RunState::Stopping);
    server.automatic_state_save = false;
    assert!(matches!(
        step(&mut server, OrderEvent::Accepted),
        OrderStep::Send(_)
    ));
    assert_eq!(with_context("a", "b"), "a: b");
}

#[test]
fn states_of_workers_are_collected() {
    let mut server = server();
    server.workers.push(worker(10, RunState::Running));
    let (sent, mut collector) = server.status(&identifier(), 3);
    assert_eq!(sent.len(), 2);
    assert_eq!(sent[1].1.id, "CL-7-status-10");
    assert!(!collector.receive(
        answer("CL-7-status-10", RequestStatus::Processing, None),
        false
    ));
    assert!(!collector.receive(answer("CL-7-status-10", RequestStatus::Error, None), false));
    assert!(collector.receive(answer("CL-7-status-0", RequestStatus::Done, None), false));
    match collector.finish() {
        Advancement::Done(Success::Status(ResponseContent::Status(infos))) => {
            // in the order of the texts of the identifiers
            let states: Vec<(u32, RunState)> =
                infos.iter().map(|i| (i.id, i.run_state)).collect();
            assert_eq!(
                states,
                vec![
                    (0, RunState::Running),
                    (1, RunState::Stopped),
                    (10, RunState::NotAnswering),
                    (2, RunState::NotAnswering),
                    (3, RunState::Stopping),
                ]
            );
        }
        other => panic!("unexpected {:?}", other),
    }
    let (_, mut late) = server.status(&identifier(), 4);
    assert!(late.receive(answer("unknown", RequestStatus::Done, None), true));
}

#[test]
fn metrics_are_configured_on_workers_that_are_not_stopped() {
    let mut server = server();
    let (sent, mut collector) =
        server.configure_metrics(&identifier(), MetricsConfiguration::Enabled, 3);
    assert_eq!(
        sent.iter().map(|(w, _)| *w).collect::<Vec<u32>>(),
        vec![0, 2, 3]
    );
    assert!(!collector.receive(answer("CL-7-metrics-0", RequestStatus::Done, None)));
    assert!(!collector.receive(answer("CL-7-metrics-2", RequestStatus::Done, None)));
    assert!(collector.receive(answer("CL-7-metrics-3", RequestStatus::Done, None)));
    assert_eq!(
        collector.finish(),
        Advancement::Done(Success::Metrics(MetricsConfiguration::Enabled))
    );
    let (_, mut failing) =
        server.configure_metrics(&identifier(), MetricsConfiguration::Clear, 3);
    failing.receive(answer("CL-7-metrics-CL-7-metrics-0", RequestStatus::Done, None));
    failing.receive(answer("CL-7-metrics-2", RequestStatus::Error, None));
    assert_eq!(
        failing.finish(),
        Advancement::Error("0: OK, 2: None".to_string())
    );
}

#[test]
fn queries_are_answered_by_worker() {
    let mut server = server();
    let order = ProxyRequestOrder::QueryClustersHashes;
    let (sent, mut collector) = server.query(&identifier(), &order, 3);
    assert_eq!(sent[2].1.id, "CL-7-query-3");
    assert!(!collector.receive(2, content("x", WorkerContent::ClustersHashes("h2".to_string()))));
    assert!(!collector.receive(0, content("x", WorkerContent::ClustersHashes("h0".to_string()))));
    assert!(collector.receive(3, answer("x", RequestStatus::Error, Some("gone"))));
    let main = Some(WorkerContent::ClustersHashes("m".to_string()));
    match collector.finish(&order, main, String::new()) {
        Some(Advancement::Done(Success::Query(ResponseContent::Query(map)))) => {
            assert_eq!(map.len(), 3);
            assert_eq!(map.entry(0).0, "0");
            assert_eq!(map.entry(1).0, "2");
            assert_eq!(
                map.get(&"main".to_string()),
                Some(&WorkerContent::ClustersHashes("m".to_string()))
            );
        }
        other => panic!("unexpected {:?}", other),
    }
    assert_eq!(
        collector.finish(&ProxyRequestOrder::QueryAllCertificates, None, String::new()),
        None
    );
    match collector.finish(
        &ProxyRequestOrder::QueryCertificateByDomain("d".to_string()),
        None,
        String::new(),
    ) {
        Some(Advancement::Done(Success::Query(ResponseContent::Query(map)))) => {
            assert_eq!(map.len(), 2)
        }
        other => panic!("unexpected {:?}", other),
    }
}

#[test]
fn metrics_are_aggregated() {
    let mut server = server();
    let options = |list: bool| {
        ProxyRequestOrder::QueryMetrics(QueryMetricsOptions {
            list,
            cluster_ids: Vec::new(),
            backend_ids: Vec::new(),
            metric_names: Vec::new(),
        })
    };
    let (_, mut collector) = server.query(&identifier(), &options(true), 3);
    collector.receive(
        0,
        content("x", WorkerContent::AvailableMetrics(vec!["bytes_in".to_string()])),
    );
    collector.receive(2, content("x", WorkerContent::Metrics("{}".to_string())));
    match collector.finish(&options(true), None, "main".to_string()) {
        Some(Advancement::Done(Success::Query(ResponseContent::AvailableMetrics(a)))) => {
            assert!(a.main.is_empty());
            assert_eq!(a.workers.len(), 1);
            assert_eq!(a.workers.entry(0).1, vec!["bytes_in".to_string()]);
        }
        other => panic!("unexpected {:?}", other),
    }
    match collector.finish(&options(false), None, "main".to_string()) {
        Some(Advancement::Done(Success::Query(ResponseContent::Metrics(m)))) => {
            assert_eq!(m.main, "main");
            assert_eq!(m.workers.get(&"2".to_string()), Some(&"{}".to_string()));
            assert_eq!(m.workers.len(), 1);
        }
        other => panic!("unexpected {:?}", other),
    }
}

#[test]
fn frontends_are_listed_by_kind_and_domain() {
    let server = server();
    let front = |hostname: &str| HttpFrontend {
        hostname: hostname.to_string(),
        ..Worker::default_http_frontend("c".to_string(), address(80))
    };
    let http = vec![front("www.example.com"), front("other.org")];
    let https = vec![front("example.com")];
    let tcp = vec![Worker::default_tcp_frontend("t".to_string(), address(81))];
    let list = |http_filter: bool, tcp_filter: bool, domain: Option<&str>| {
        let filters = FrontendFilters {
            http: http_filter,
            https: false,
            tcp: tcp_filter,
            domain: domain.map(|d| d.to_string()),
        };
        match server.list_frontends(&filters, &http, &https, &tcp) {
            Success::ListFrontends(ResponseContent::FrontendList(l)) => (
                l.http_frontends.len(),
                l.https_frontends.len(),
                l.tcp_frontends.len(),
            ),
            other => panic!("unexpected {:?}", other),
        }
    };
    assert_eq!(list(false, false, None), (2, 1, 1));
    assert_eq!(list(false, false, Some("example")), (1, 1, 0));
    assert_eq!(list(true, false, None), (2, 0, 0));
    assert_eq!(list(false, true, None), (0, 0, 1));
    assert_eq!(list(false, true, Some("example")), (0, 0, 0));
    let listeners = server.list_listeners(
        &vec![Worker::default_http_listener(address(80))],
        &vec![Worker::default_https_listener(address(443))],
        &vec![Worker::default_tcp_listener(address(81))],
    );
    match listeners {
        Success::ListListeners(ResponseContent::ListenersList(l)) => {
            assert_eq!(l.http_listeners[0].request_timeout, 10);
            assert_eq!(l.https_listeners[0].address, address(443));
            assert_eq!(l.tcp_listeners.len(), 1);
        }
        other => panic!("unexpected {:?}", other),
    }
    assert_eq!(
        server.dump_state("{}".to_string()),
        Success::DumpState(ResponseContent::State("{}".to_string()))
    );
}

#[test]
fn workers_are_launched_with_fresh_identifiers() {
    let mut server = server();
    assert_eq!(
        tell_at_once(server.launch_failure("fork failed")),
        Some(Advancement::Error(
            "Failed at creating worker 4: fork failed".to_string()
        ))
    );
    let orders = vec![ProxyRequestOrder::Status, ProxyRequestOrder::SoftStop];
    let (requests, success) = server.launch_worker(77, &orders);
    assert_eq!(success, Success::WorkerLaunched(4));
    assert_eq!(requests[0].id, "4-ACTIVATE-0");
    assert_eq!(requests[1].id, "4-ACTIVATE-1");
    assert_eq!(requests[1].order, ProxyRequestOrder::SoftStop);
    assert_eq!(server.next_worker_id, 5);
    assert_eq!(server.workers.last(), Some(&worker_with_pid(4, 77)));
}

fn worker_with_pid(id: u32, pid: i32) -> WorkerInfo {
    WorkerInfo {
        id,
        pid,
        run_state: RunState::Running,
    }
}

#[test]
fn workers_are_replaced() {
    let mut server = server();
    let mut gone = WorkerUpgrade::new(3);
    assert!(matches!(
        server.upgrade_worker(&mut gone, &identifier(), UpgradeEvent::Start, 5),
        UpgradeStep::Failed(text)
            if text == "The worker 3 does not exist, or is stopped / stopping."
    ));
    let mut upgrade = WorkerUpgrade::new(2);
    let mut go = |server: &mut CommandServer, event: UpgradeEvent| {
        server.upgrade_worker(&mut upgrade, &identifier(), event, 5)
    };
    assert!(matches!(
        go(&mut server, UpgradeEvent::Start),
        UpgradeStep::Launch(4)
    ));
    assert!(matches!(
        go(&mut server, UpgradeEvent::Launched(99)),
        UpgradeStep::Greet(request) if request.id == "UPGRADE-2-STATUS"
    ));
    assert!(matches!(
        go(&mut server, UpgradeEvent::Greeted),
        UpgradeStep::Fetch(request)
            if request.id == "CL-7-return-sockets"
                && request.order == ProxyRequestOrder::ReturnListenSockets
    ));
    for _ in 0..49 {
        assert!(matches!(
            go(&mut server, UpgradeEvent::NoSockets),
            UpgradeStep::Retry(100)
        ));
    }
    assert_eq!(server.workers[2].run_state, RunState::NotAnswering);
    assert!(matches!(
        go(&mut server, UpgradeEvent::NoSockets),
        UpgradeStep::Stop { request, sockets: false } if request.id == "CL-7-softstop"
    ));
    assert_eq!(server.workers[2].run_state, RunState::Stopping);
    assert_eq!(
        server.in_flight.get(&"CL-7-softstop".to_string()).map(|f| f.task),
        Some(5)
    );
    match go(
        &mut server,
        UpgradeEvent::Connected(vec![ProxyRequestOrder::Status]),
    ) {
        UpgradeStep::Finished(requests, success) => {
            assert_eq!(requests[0].id, "CL-7-ACTIVATE-0");
            assert_eq!(success, Success::UpgradeWorker(4));
        }
        other => panic!("unexpected step {:?}", other),
    }
    assert_eq!(server.workers.last(), Some(&worker_with_pid(4, 99)));
    assert_eq!(server.next_worker_id, 5);
}

#[test]
fn upgrades_can_fail() {
    let start = || {
        let mut server = server();
        let mut upgrade = WorkerUpgrade::new(0);
        server.upgrade_worker(&mut upgrade, &identifier(), UpgradeEvent::Start, 5);
        (server, upgrade)
    };
    let (mut server, mut upgrade) = start();
    assert!(matches!(
        server.upgrade_worker(
            &mut upgrade,
            &identifier(),
            UpgradeEvent::NotLaunched("no memory".to_string()),
            5
        ),
        UpgradeStep::Failed(text) if text == "failed at creating worker: no memory"
    ));
    assert_eq!(server.next_worker_id, 4);
    let (mut server, mut upgrade) = start();
    server.upgrade_worker(&mut upgrade, &identifier(), UpgradeEvent::Launched(7), 5);
    let mut other = upgrade;
    assert!(matches!(
        server.upgrade_worker(&mut other, &identifier(), UpgradeEvent::NoChannel, 5),
        UpgradeStep::Failed(text) if text == "No channel on new worker"
    ));
    assert!(matches!(
        server.upgrade_worker(
            &mut upgrade,
            &identifier(),
            UpgradeEvent::NotGreeted("closed".to_string()),
            5
        ),
        UpgradeStep::Failed(text) if text == "could not send status message to worker 4: closed"
    ));
    assert_eq!(server.workers.len(), 4);
    let (mut server, mut upgrade) = start();
    server.upgrade_worker(&mut upgrade, &identifier(), UpgradeEvent::Launched(7), 5);
    server.upgrade_worker(&mut upgrade, &identifier(), UpgradeEvent::Greeted, 5);
    assert!(matches!(
        server.upgrade_worker(&mut upgrade, &identifier(), UpgradeEvent::Sockets, 5),
        UpgradeStep::Stop { sockets: true, .. }
    ));
    assert!(matches!(
        server.upgrade_worker(
            &mut upgrade,
            &identifier(),
            UpgradeEvent::NotConnected("bad stream".to_string()),
            5
        ),
        UpgradeStep::Failed(text) if text == "bad stream"
    ));
}

#[test]
fn answers_of_the_old_worker_are_understood() {
    assert!(matches!(
        sockets_answer(answer("x", RequestStatus::Done, None)),
        SocketsStep::Done
    ));
    assert!(matches!(
        sockets_answer(answer("x", RequestStatus::Processing, None)),
        SocketsStep::Wait
    ));
    assert!(matches!(
        sockets_answer(answer("x", RequestStatus::Error, Some("no"))),
        SocketsStep::Failed(Advancement::Error(text)) if text == "no"
    ));
    assert_eq!(soft_stop_answer(RequestStatus::Done), SoftStopStep::Close);
    assert_eq!(soft_stop_answer(RequestStatus::Processing), SoftStopStep::Wait);
    assert_eq!(soft_stop_answer(RequestStatus::Error), SoftStopStep::GiveUp);
}

#[test]
fn the_main_process_is_replaced_once_it_confirms() {
    let server = server();
    let told = |confirmation: Result<bool, String>| {
        tell_at_once(server.upgrade_main(MainUpgrade::Started(321, confirmation)))
    };
    assert_eq!(
        tell_at_once(server.upgrade_main(MainUpgrade::NotPrepared("bad file".to_string()))),
        Some(Advancement::Error("bad file".to_string()))
    );
    assert_eq!(
        tell_at_once(server.upgrade_main(MainUpgrade::NotStarted("no fork".to_string()))),
        Some(Advancement::Error(
            "Could not start a new main process: no fork".to_string()
        ))
    );
    assert_eq!(
        told(Ok(true)),
        Some(Advancement::Done(Success::UpgradeMain(321)))
    );
    assert_eq!(
        told(Ok(false)),
        Some(Advancement::Error("forking the new worker failed".to_string()))
    );
    assert_eq!(
        told(Err("closed".to_string())),
        Some(Advancement::Error(
            "Did not receive fork confirmation from new worker: closed".to_string()
        ))
    );
}

#[test]
fn a_reloaded_configuration_brings_its_changes() {
    let mut server = server();
    assert_eq!(
        tell_at_once(server.reload_failure("c.toml", "no such file")),
        Some(Advancement::Error(
            "cannot load configuration from 'c.toml': no such file".to_string()
        ))
    );
    assert_eq!(server.reload_path(None), "/etc/config.toml");
    assert_eq!(server.reload_path(Some("new".to_string())), "new");
    let messages = vec![
        proxy_request(ProxyRequestOrder::Status),
        request(CommandRequestOrder::Status),
        proxy_request(ProxyRequestOrder::SoftStop),
        proxy_request(ProxyRequestOrder::HardStop),
    ];
    let (sent, diffs) = server.reload_configuration(
        &identifier(),
        &messages,
        &vec![true, true, false, true],
        false,
        None,
        "/etc/new.toml".to_string(),
        8,
    );
    assert_eq!(diffs, 2);
    let ids: Vec<String> = sent.iter().map(|(_, r)| r.id.clone()).collect();
    assert_eq!(
        ids,
        vec![
            "LOAD-STATE-ID-9-1-0",
            "LOAD-STATE-ID-9-1-2",
            "LOAD-STATE-ID-9-2-0",
            "LOAD-STATE-ID-9-2-2",
        ]
    );
    assert_eq!(server.config_path, "/etc/new.toml");
    assert_eq!(server.saved_state, None);
    let mut collector = LoadCollector::new();
    collector.receive(RequestStatus::Done);
    collector.receive(RequestStatus::Processing);
    assert_eq!(
        collector.finish_reload(),
        Advancement::Done(Success::ReloadConfiguration(1, 0))
    );
    collector.receive(RequestStatus::Error);
    assert_eq!(
        collector.finish_reload(),
        Advancement::Error("Reloading configuration failed. ok: 1 messages, error: 1".to_string())
    );
    assert_eq!(
        collector.finish_load("state"),
        Advancement::Error("Loading state failed, ok: 1, error: 1, path: state".to_string())
    );
}

#[test]
fn a_saved_state_is_framed() {
    let server = server();
    let messages = server.save_state_to_file(&vec![
        ProxyRequestOrder::Status,
        ProxyRequestOrder::SoftStop,
    ]);
    assert_eq!(messages[1].id, "SAVE-1");
    assert_eq!(messages[1].worker_id, None);
    assert!(sync_after(0) && sync_after(2000) && !sync_after(999));
    let mut file = frame(&b"{\"a\":1}".to_vec());
    file.extend(frame(&b"{}".to_vec()));
    assert_eq!(file, b"{\"a\":1}\n\0{}\n\0");
    file.extend_from_slice(b"{\"rest");
    let frames = split_frames(&file);
    assert_eq!(frames, vec![b"{\"a\":1}\n".to_vec(), b"{}\n".to_vec()]);
    assert_eq!(length_of_frames(&frames, 1), 9);
    assert_eq!(length_of_frames(&frames, 2), 13);
    let told = |written: Written| tell_at_once(server.save_state("/s", written));
    assert_eq!(
        told(Written::Messages(2)),
        Some(Advancement::Done(Success::SaveState(2, "/s".to_string())))
    );
    assert_eq!(
        told(Written::NotOpened("denied".to_string())),
        Some(Advancement::Error(
            "could not open file at path: /s: denied".to_string()
        ))
    );
    assert_eq!(
        told(Written::NoLineBreak("full".to_string())),
        Some(Advancement::Error(
            "failed writing state to file: Could not write the state onto the state file: \
             Could not add new line to the saved state file: full"
                .to_string()
        ))
    );
    assert_eq!(
        told(Written::NoMessage("M".to_string(), "full".to_string())),
        Some(Advancement::Error(
            "failed writing state to file: Could not write the state onto the state file: \
             Could not add this instruction line to the saved state file: M: full"
                .to_string()
        ))
    );
}

#[test]
fn a_saved_state_is_loaded_piece_by_piece() {
    let mut server = server();
    let mut loader = StateLoader::new("ID-9".to_string());
    let (_, step) = server.load_state(&mut loader, LoadEvent::Read(b"{}\n\0{}".to_vec()), 1);
    assert!(matches!(step, LoadStep::Parse));
    assert_eq!(loader.data(), &b"{}\n\0{}".to_vec());
    let requests = vec![
        request(CommandRequestOrder::Status),
        proxy_request(ProxyRequestOrder::Status),
        proxy_request(ProxyRequestOrder::SoftStop),
    ];
    let (sent, step) = server.load_state(&mut loader, LoadEvent::Parsed(requests, 4), 1);
    assert!(sent.is_empty());
    assert!(matches!(step, LoadStep::Dispatch(ProxyRequestOrder::Status)));
    let (sent, step) = server.load_state(&mut loader, LoadEvent::Dispatched(false), 1);
    assert!(sent.is_empty());
    assert!(matches!(step, LoadStep::Dispatch(ProxyRequestOrder::SoftStop)));
    let (sent, step) = server.load_state(&mut loader, LoadEvent::Dispatched(true), 1);
    assert_eq!(
        sent.iter().map(|(_, r)| r.id.as_str()).collect::<Vec<_>>(),
        vec!["LOAD-STATE-ID-9-1-0", "LOAD-STATE-ID-9-1-2"]
    );
    assert_eq!(loader.data(), &b"{}".to_vec());
    assert!(matches!(step, LoadStep::Read { .. }));
    assert_eq!(loader.diffs(), 1);
    assert_eq!(loader.finish(&Some("CL-7".to_string()), "p"), None);
    // the rest never becomes a request
    server.load_state(&mut loader, LoadEvent::Read(Vec::new()), 1);
    let (_, step) = server.load_state(&mut loader, LoadEvent::Parsed(Vec::new(), 0), 1);
    assert!(matches!(
        step,
        LoadStep::Failed(text) if text == "error consuming load state message"
    ));
}

#[test]
fn a_saved_state_is_offered_again() {
    let mut server = server();
    let orders = vec![
        ProxyRequestOrder::AddCluster(Worker::default_cluster("c".to_string())),
        ProxyRequestOrder::AddTcpFrontend(Worker::default_tcp_frontend(
            "c".to_string(),
            address(80),
        )),
        ProxyRequestOrder::AddBackend(Worker::default_backend(
            "c".to_string(),
            "c-0".to_string(),
            address(81),
        )),
    ];
    let messages = server.save_state_to_file(&orders);
    let mut loader = StateLoader::new("ID-9".to_string());
    server.load_state(&mut loader, LoadEvent::Read(b"...".to_vec()), 1);
    let mut event = LoadEvent::Parsed(messages, 3);
    let mut offered = Vec::new();
    loop {
        match server.load_state(&mut loader, event, 1).1 {
            LoadStep::Dispatch(order) => {
                event = LoadEvent::Dispatched(offered.len() != 1);
                offered.push(order);
            }
            LoadStep::Read { .. } => break,
            other => panic!("unexpected step {:?}", other),
        }
    }
    assert_eq!(offered, orders);
    assert_eq!(loader.diffs(), 2);
    assert!(loader.data().is_empty());
}

#[test]
fn loading_ends_or_fails() {
    assert_eq!(
        tell_at_once(StateLoader::open_failure("p", "denied")),
        Some(Advancement::Error(
            "Cannot open file at path p: denied".to_string()
        ))
    );
    let mut server = server();
    let mut loader = StateLoader::new("ID-9".to_string());
    let (_, step) = server.load_state(&mut loader, LoadEvent::Read(Vec::new()), 1);
    assert!(matches!(step, LoadStep::Finished));
    assert_eq!(
        loader.finish(&Some("CL-7".to_string()), "p"),
        Some(Advancement::Done(Success::LoadState("p".to_string(), 0, 0)))
    );
    assert_eq!(loader.finish(&None, "p"), None);

    let mut loader = StateLoader::new("ID-9".to_string());
    let (_, step) =
        server.load_state(&mut loader, LoadEvent::ReadFailed("denied".to_string()), 1);
    assert!(matches!(
        step,
        LoadStep::Failed(text) if text == "Error reading the saved state file: denied"
    ));

    let mut loader = StateLoader::new("ID-9".to_string());
    server.load_state(&mut loader, LoadEvent::Read(b"{}\0".to_vec()), 1);
    let newer = CommandRequest {
        version: 1,
        ..proxy_request(ProxyRequestOrder::Status)
    };
    let (_, step) = server.load_state(&mut loader, LoadEvent::Parsed(vec![newer], 3), 1);
    assert!(matches!(step, LoadStep::Finished));

    let mut loader = StateLoader::new("ID-9".to_string());
    server.load_state(&mut loader, LoadEvent::Read(b"?".to_vec()), 1);
    let (_, step) =
        server.load_state(&mut loader, LoadEvent::ParseFailed("Error(1)".to_string()), 1);
    assert!(matches!(
        step,
        LoadStep::Failed(text) if text == "saved state parse error: Error(1)"
    ));

    let mut loader = StateLoader::new("ID-9".to_string());
    server.load_state(&mut loader, LoadEvent::Read(b"{".to_vec()), 1);
    let (_, step) = server.load_state(&mut loader, LoadEvent::Incomplete, 1);
    assert!(matches!(step, LoadStep::Read { room: 199999 }));

    server.workers.clear();
    let mut loader = StateLoader::new("ID-9".to_string());
    server.load_state(&mut loader, LoadEvent::Read(b"{}\0".to_vec()), 1);
    let order = proxy_request(ProxyRequestOrder::Status);
    server.load_state(&mut loader, LoadEvent::Parsed(vec![order], 3), 1);
    let (_, step) = server.load_state(&mut loader, LoadEvent::Dispatched(true), 1);
    assert!(matches!(
        step,
        LoadStep::Failed(text) if text == "no worker found"
    ));
}

#[test]
fn a_harness_numbers_its_requests() {
    let env = Environment {
        files: Vec::new(),
        answer_404: String::new(),
        answer_503: String::new(),
        current_dir: CurrentDir::Known(String::new()),
        current_dir_shown: String::new(),
    };
    let (config, _) = Worker::empty_config(&env);
    assert_eq!(config.command_socket, "sozu.sock");
    let mut worker = Worker::start_new_worker("W".to_string(), config);
    assert_eq!(worker.command_id.last, "NONE");
    let sockets = worker.upgrade(false);
    assert_eq!(sockets.id, "ID_0");
    assert_eq!(sockets.order, ProxyRequestOrder::ReturnListenSockets);
    assert!(worker.read_to_last(&"ID_0".to_string()));
    let stop = worker.upgrade(true);
    assert_eq!(stop.id, "ID_1");
    assert_eq!(stop.order, ProxyRequestOrder::SoftStop);
    assert!(worker.read_to_last(&"ID_1".to_string()));
    assert!(!worker.read_to_last(&"ID_0".to_string()));
    let requests = worker.activate(&vec![ProxyRequestOrder::Status]);
    assert_eq!(requests[0].id, "ACTIVATE_2");
    assert_eq!(worker.command_id.prefix, "ID_");
    assert_eq!(set_no_close_exec(3), 2);
    assert_eq!(set_no_close_exec(4), 4);
    assert_eq!(set_no_close_exec(-1), -2);
}
