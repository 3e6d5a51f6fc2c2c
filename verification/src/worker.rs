//! A worker as a test harness drives it: with an empty configuration, and with plain listeners,
//! clusters, frontends and backends.
use vstd::prelude::*;
use vstd::string::*;

use crate::address::SocketAddress;
use crate::command::types::{WorkerRequest, WorkerRequestModel};
use crate::config::environment::Environment;
use crate::config::listener::{
    default_cipher_suites, default_groups_list, default_rustls_cipher_list,
    default_signature_algorithms, default_sticky_name,
};
use crate::config::types::{Config, ConfigModel, FileConfig, FileConfigModel};
use crate::proxy::{
    Backend, BackendModel, Cluster, ClusterModel, HttpFrontend, HttpFrontendModel,
    HttpListenerConfig, HttpListenerConfigModel, HttpsListenerConfig, HttpsListenerConfigModel,
    LoadBalancingAlgorithms, LoadBalancingParams, PathRule, PathRuleModel, ProxyRequestOrder,
    ProxyRequestOrderModel, Route, RouteModel, RulePosition, TcpFrontend, TcpFrontendModel,
    TcpListenerConfig, TcpListenerConfigModel, TlsVersion,
};
use crate::text::decimal_text;

verus! {

/// The answer to a request that no frontend matches, where none is configured.
pub open spec fn plain_answer_404() -> Seq<char> {
    "HTTP/1.1 404 Not Found\r\nCache-Control: no-cache\r\nConnection: close\r\n\r\n"@
}

/// The answer for a cluster without available backend, where none is configured.
pub open spec fn plain_answer_503() -> Seq<char> {
    "HTTP/1.1 503 Service Unavailable\r\nCache-Control: no-cache\r\nConnection: close\r\n\r\n"@
}

impl HttpListenerConfigModel {
    /// A listener with default options.
    pub open spec fn plain(address: SocketAddress) -> HttpListenerConfigModel {
        HttpListenerConfigModel {
            address,
            public_address: None,
            answer_404: plain_answer_404(),
            answer_503: plain_answer_503(),
            expect_proxy: false,
            sticky_name: "SOZUBALANCEID"@,
            front_timeout: 60,
            back_timeout: 30,
            connect_timeout: 3,
            request_timeout: 10,
        }
    }
}

impl HttpsListenerConfigModel {
    /// A listener with default options and without certificate.
    pub open spec fn plain(address: SocketAddress) -> HttpsListenerConfigModel {
        HttpsListenerConfigModel {
            address,
            public_address: None,
            answer_404: plain_answer_404(),
            answer_503: plain_answer_503(),
            versions: seq![TlsVersion::TLSv1_2, TlsVersion::TLSv1_3],
            cipher_list: crate::config::listener::rustls_cipher_list(),
            cipher_suites: crate::config::listener::cipher_suites(),
            signature_algorithms: crate::config::listener::signature_algorithms(),
            groups_list: crate::config::listener::groups_list(),
            expect_proxy: false,
            sticky_name: "SOZUBALANCEID"@,
            certificate: None,
            certificate_chain: Seq::empty(),
            key: None,
            front_timeout: 60,
            back_timeout: 30,
            connect_timeout: 3,
            request_timeout: 10,
        }
    }
}

/// The sockets that a worker listens on, by their file descriptors.
#[derive(Debug, PartialEq, Eq)]
pub struct Listeners {
    pub http: Vec<(SocketAddress, i32)>,
    pub tls: Vec<(SocketAddress, i32)>,
    pub tcp: Vec<(SocketAddress, i32)>,
}

/// Numbers the requests of a harness.
#[derive(Debug, PartialEq, Eq)]
pub struct CommandID {
    pub id: u64,
    pub prefix: String,
    /// the identifier of the last request
    pub last: String,
}

/// The file that sets nothing but that workers are not restarted.
pub open spec fn empty_file() -> FileConfigModel {
    FileConfigModel {
        command_socket: None,
        command_buffer_size: None,
        max_command_buffer_size: None,
        max_connections: None,
        min_buffers: None,
        max_buffers: None,
        buffer_size: None,
        saved_state: None,
        automatic_state_save: None,
        log_level: None,
        log_target: None,
        log_access_target: None,
        worker_count: None,
        worker_automatic_restart: Some(false),
        metrics: None,
        listeners: None,
        clusters: None,
        handle_process_affinity: None,
        ctl_command_timeout: None,
        pid_file_path: None,
        activate_listeners: None,
        front_timeout: None,
        back_timeout: None,
        connect_timeout: None,
        zombie_check_interval: None,
        accept_queue_timeout: None,
        request_timeout: None,
    }
}

impl CommandID {
    pub fn new() -> (r: CommandID)
        ensures
            r.id == 0,
            r.prefix@ == "ID_"@,
            r.last@ == "NONE"@,
    {
        CommandID { id: 0, prefix: "ID_".to_owned(), last: "NONE".to_owned() }
    }

    /// The identifier of the next request.
    pub fn next(&mut self) -> (r: String)
        requires
            old(self).id < u64::MAX,
        ensures
            r@ == old(self).prefix@ + crate::text::decimal(old(self).id as nat),
            final(self).last@ == r@,
            final(self).id == old(self).id + 1,
            final(self).prefix@ == old(self).prefix@,
    {
        let mut id = self.prefix.clone();
        id.append(decimal_text(self.id).as_str());
        self.last = id.clone();
        self.id = self.id + 1;
        id
    }
}

/// The flags of a file descriptor without the one that closes it when the process is replaced, which
/// is the lowest one.
pub fn set_no_close_exec(old_flags: i32) -> (r: i32)
    ensures
        r == old_flags & !1i32,
{
    old_flags & !1i32
}

/// A worker that is driven by a harness.
#[derive(Debug, PartialEq, Eq)]
pub struct Worker {
    pub name: String,
    pub config: Config,
    pub command_id: CommandID,
}

impl Worker {
    /// The file that sets nothing but that workers are not restarted.
    pub fn empty_file_config() -> (r: FileConfig)
        ensures
            r.deep_view() == empty_file(),
            r.command_buffer_size is None,
    {
        FileConfig {
            command_socket: None,
            saved_state: None,
            automatic_state_save: None,
            worker_count: None,
            worker_automatic_restart: Some(false),
            handle_process_affinity: None,
            command_buffer_size: None,
            max_command_buffer_size: None,
            max_connections: None,
            min_buffers: None,
            max_buffers: None,
            buffer_size: None,
            log_level: None,
            log_target: None,
            log_access_target: None,
            metrics: None,
            listeners: None,
            clusters: None,
            ctl_command_timeout: None,
            pid_file_path: None,
            activate_listeners: None,
            request_timeout: None,
            front_timeout: None,
            back_timeout: None,
            connect_timeout: None,
            zombie_check_interval: None,
            accept_queue_timeout: None,
        }
    }

    /// No socket at all.
    pub fn empty_listeners() -> (r: Listeners)
        ensures
            r.http@.len() == 0,
            r.tls@.len() == 0,
            r.tcp@.len() == 0,
    {
        Listeners { http: Vec::new(), tls: Vec::new(), tcp: Vec::new() }
    }

    /// The configuration that a file describes, where it describes one.
    pub fn into_config(config: FileConfig, env: &Environment) -> (r: Config)
        requires
            crate::config::assembly::or_default(config.command_buffer_size, 1_000_000) * 2
                <= usize::MAX,
            config.deep_view().as_config(""@, env.deep_view()) is Ok,
        ensures
            config.deep_view().as_config(""@, env.deep_view()) == Ok::<
                ConfigModel,
                crate::config::error::ConfigErrorModel,
            >(r.deep_view()),
    {
        config.into("", env).unwrap()
    }

    /// The configuration of the empty file, and no socket.
    pub fn empty_config(env: &Environment) -> (r: (Config, Listeners))
        requires
            env.deep_view().current_dir is Known,
        ensures
            empty_file().as_config(""@, env.deep_view()) == Ok::<
                ConfigModel,
                crate::config::error::ConfigErrorModel,
            >(r.0.deep_view()),
            r.1.http@.len() == 0,
            r.1.tls@.len() == 0,
            r.1.tcp@.len() == 0,
    {
        let listeners = Worker::empty_listeners();
        let config = Worker::empty_file_config();
        let config = Worker::into_config(config, env);
        (config, listeners)
    }

    /// A worker that was not sent any request yet.
    pub fn start_new_worker(name: String, config: Config) -> (r: Worker)
        ensures
            r.name == name,
            r.config == config,
            r.command_id.id == 0,
            r.command_id.prefix@ == "ID_"@,
            r.command_id.last@ == "NONE"@,
    {
        Worker { name, config, command_id: CommandID::new() }
    }

    /// The next request that makes room for another worker: this one gives its sockets away, and
    /// stops once it did.
    pub fn upgrade(&mut self, gave_sockets: bool) -> (r: WorkerRequest)
        requires
            old(self).command_id.id < u64::MAX,
        ensures
            r.deep_view() == (WorkerRequestModel {
                id: old(self).command_id.prefix@ + crate::text::decimal(
                    old(self).command_id.id as nat,
                ),
                order: if gave_sockets {
                    ProxyRequestOrderModel::SoftStop
                } else {
                    ProxyRequestOrderModel::ReturnListenSockets
                },
            }),
            final(self).command_id.last@ == r.deep_view().id,
            final(self).command_id.id == old(self).command_id.id + 1,
            final(self).command_id.prefix@ == old(self).command_id.prefix@,
            final(self).name == old(self).name,
            final(self).config == old(self).config,
    {
        if gave_sockets {
            self.send_proxy_request(ProxyRequestOrder::SoftStop)
        } else {
            self.send_proxy_request(ProxyRequestOrder::ReturnListenSockets)
        }
    }

    /// The requests that start the listeners of a worker that takes over from another one.
    pub fn activate(&mut self, orders: &Vec<ProxyRequestOrder>) -> (r: Vec<WorkerRequest>)
        requires
            old(self).command_id.id + orders@.len() <= u64::MAX,
        ensures
            r.deep_view() == Seq::new(
                orders@.len(),
                |i: int|
                    WorkerRequestModel {
                        id: "ACTIVATE_"@ + crate::text::decimal(
                            (old(self).command_id.id + i) as nat,
                        ),
                        order: orders.deep_view()[i],
                    },
            ),
            final(self).command_id.id == old(self).command_id.id + orders@.len(),
            final(self).command_id.prefix@ == "ID_"@,
            final(self).command_id.last@ == if orders@.len() == 0 {
                old(self).command_id.last@
            } else {
                r.deep_view().last().id
            },
            final(self).name == old(self).name,
            final(self).config == old(self).config,
    {
        let ghost all = orders.deep_view();
        let ghost first = self.command_id.id;
        let mut r: Vec<WorkerRequest> = Vec::new();
        self.command_id.prefix = "ACTIVATE_".to_owned();
        let mut i: usize = 0;
        while i < orders.len()
            invariant
                i <= orders.len(),
                all == orders.deep_view(),
                first == old(self).command_id.id,
                first + orders@.len() <= u64::MAX,
                self.command_id.id == first + i,
                self.command_id.prefix@ == "ACTIVATE_"@,
                self.command_id.last@ == if i == 0 {
                    old(self).command_id.last@
                } else {
                    r@[i - 1].deep_view().id
                },
                self.name == old(self).name,
                self.config == old(self).config,
                r.len() == i,
                forall|k: int|
                    0 <= k < i ==> (#[trigger] r@[k]).deep_view() == (WorkerRequestModel {
                        id: "ACTIVATE_"@ + crate::text::decimal((first + k) as nat),
                        order: all[k],
                    }),
            decreases orders.len() - i,
        {
            proof {
                assert(all[i as int] == orders@[i as int].deep_view());
            }
            let request = self.send_proxy_request(orders[i].clone());
            r.push(request);
            i = i + 1;
        }
        self.command_id.prefix = "ID_".to_owned();
        proof {
            assert(r.deep_view() =~= Seq::new(
                all.len(),
                |i: int|
                    WorkerRequestModel {
                        id: "ACTIVATE_"@ + crate::text::decimal((first + i) as nat),
                        order: all[i],
                    },
            ));
        }
        r
    }

    /// The request that brings an order to the worker.
    pub fn send_proxy_request(&mut self, order: ProxyRequestOrder) -> (r: WorkerRequest)
        requires
            old(self).command_id.id < u64::MAX,
        ensures
            r.deep_view() == (WorkerRequestModel {
                id: old(self).command_id.prefix@ + crate::text::decimal(
                    old(self).command_id.id as nat,
                ),
                order: order.deep_view(),
            }),
            final(self).command_id.last@ == r.deep_view().id,
            final(self).command_id.id == old(self).command_id.id + 1,
            final(self).command_id.prefix@ == old(self).command_id.prefix@,
            final(self).name == old(self).name,
            final(self).config == old(self).config,
    {
        WorkerRequest { id: self.command_id.next(), order }
    }

    /// Whether a response is the one to the last request.
    pub fn read_to_last(&self, response_id: &String) -> (r: bool)
        ensures
            r == (response_id@ == self.command_id.last@),
    {
        *response_id == self.command_id.last
    }

    /// A TCP listener with default options.
    pub fn default_tcp_listener(address: SocketAddress) -> (r: TcpListenerConfig)
        ensures
            r.deep_view() == (TcpListenerConfigModel {
                address,
                public_address: None,
                expect_proxy: false,
                front_timeout: 60,
                back_timeout: 30,
                connect_timeout: 3,
            }),
    {
        TcpListenerConfig {
            address,
            public_address: None,
            expect_proxy: false,
            front_timeout: 60,
            back_timeout: 30,
            connect_timeout: 3,
        }
    }

    /// An HTTP listener with default options.
    pub fn default_http_listener(address: SocketAddress) -> (r: HttpListenerConfig)
        ensures
            r.deep_view() == HttpListenerConfigModel::plain(address),
    {
        HttpListenerConfig {
            address,
            public_address: None,
            expect_proxy: false,
            front_timeout: 60,
            back_timeout: 30,
            connect_timeout: 3,
            ..HttpListenerConfig::default()
        }
    }

    /// An HTTPS listener with default options and without certificate.
    pub fn default_https_listener(address: SocketAddress) -> (r: HttpsListenerConfig)
        ensures
            r.deep_view() == HttpsListenerConfigModel::plain(address),
    {
        HttpsListenerConfig {
            address,
            public_address: None,
            expect_proxy: false,
            front_timeout: 60,
            back_timeout: 30,
            connect_timeout: 3,
            ..HttpsListenerConfig::default()
        }
    }

    /// A cluster with default options.
    pub fn default_cluster(cluster_id: String) -> (r: Cluster)
        ensures
            r.deep_view() == (ClusterModel {
                cluster_id: cluster_id@,
                sticky_session: false,
                https_redirect: false,
                proxy_protocol: None,
                load_balancing: LoadBalancingAlgorithms::RoundRobin,
                load_metric: None,
                answer_503: None,
            }),
    {
        Cluster {
            cluster_id,
            sticky_session: false,
            https_redirect: false,
            proxy_protocol: None,
            load_balancing: LoadBalancingAlgorithms::default(),
            load_metric: None,
            answer_503: None,
        }
    }

    /// A TCP frontend without tags.
    pub fn default_tcp_frontend(cluster_id: String, address: SocketAddress) -> (r: TcpFrontend)
        ensures
            r.deep_view() == (TcpFrontendModel { cluster_id: cluster_id@, address, tags: None }),
    {
        TcpFrontend { cluster_id, address, tags: None }
    }

    /// A frontend for all paths of the local host.
    pub fn default_http_frontend(cluster_id: String, address: SocketAddress) -> (r: HttpFrontend)
        ensures
            r.deep_view() == (HttpFrontendModel {
                route: RouteModel::ClusterId(cluster_id@),
                address,
                hostname: "localhost"@,
                path: PathRuleModel::Prefix("/"@),
                method: None,
                position: RulePosition::Tree,
                tags: None,
            }),
    {
        HttpFrontend {
            route: Route::ClusterId(cluster_id),
            address,
            hostname: "localhost".to_owned(),
            path: PathRule::Prefix("/".to_owned()),
            method: None,
            position: RulePosition::Tree,
            tags: None,
        }
    }

    /// A backend with the default weight.
    pub fn default_backend(cluster_id: String, backend_id: String, address: SocketAddress) -> (r:
        Backend)
        ensures
            r.deep_view() == (BackendModel {
                cluster_id: cluster_id@,
                backend_id: backend_id@,
                address,
                load_balancing_parameters: Some(LoadBalancingParams { weight: 100 }),
                sticky_id: None,
                backup: None,
            }),
    {
        Backend {
            cluster_id,
            backend_id,
            address,
            load_balancing_parameters: Some(LoadBalancingParams::default()),
            sticky_id: None,
            backup: None,
        }
    }
}

impl Default for HttpListenerConfig {
    fn default() -> (r: Self)
        ensures
            r.deep_view() == HttpListenerConfigModel::plain(
                SocketAddress::V4 { ip: 0x7F00_0001, port: 8080 },
            ),
    {
        HttpListenerConfig {
            address: SocketAddress::V4 { ip: 0x7F00_0001, port: 8080 },
            public_address: None,
            answer_404:
                "HTTP/1.1 404 Not Found\r\nCache-Control: no-cache\r\nConnection: close\r\n\r\n".to_owned(),
            answer_503:
                "HTTP/1.1 503 Service Unavailable\r\nCache-Control: no-cache\r\nConnection: close\r\n\r\n".to_owned(),
            expect_proxy: false,
            sticky_name: default_sticky_name(),
            front_timeout: 60,
            back_timeout: 30,
            connect_timeout: 3,
            request_timeout: 10,
        }
    }
}

impl Default for HttpsListenerConfig {
    fn default() -> (r: Self)
        ensures
            r.deep_view() == HttpsListenerConfigModel::plain(
                SocketAddress::V4 { ip: 0x7F00_0001, port: 8443 },
            ),
    {
        let mut versions: Vec<TlsVersion> = Vec::new();
        versions.push(TlsVersion::TLSv1_2);
        versions.push(TlsVersion::TLSv1_3);
        let r = HttpsListenerConfig {
            address: SocketAddress::V4 { ip: 0x7F00_0001, port: 8443 },
            public_address: None,
            answer_404:
                "HTTP/1.1 404 Not Found\r\nCache-Control: no-cache\r\nConnection: close\r\n\r\n".to_owned(),
            answer_503:
                "HTTP/1.1 503 Service Unavailable\r\nCache-Control: no-cache\r\nConnection: close\r\n\r\n".to_owned(),
            versions,
            cipher_list: default_rustls_cipher_list(),
            cipher_suites: default_cipher_suites(),
            signature_algorithms: default_signature_algorithms(),
            groups_list: default_groups_list(),
            expect_proxy: false,
            sticky_name: default_sticky_name(),
            certificate: None,
            certificate_chain: Vec::new(),
            key: None,
            front_timeout: 60,
            back_timeout: 30,
            connect_timeout: 3,
            request_timeout: 10,
        };
        proof {
            assert(r.versions.deep_view() =~= seq![TlsVersion::TLSv1_2, TlsVersion::TLSv1_3]);
            assert(r.certificate_chain.deep_view() =~= Seq::empty());
        }
        r
    }
}

/// Two requests of a harness never share their identifier, as long as the prefix stays.
pub proof fn law_request_ids_are_distinct(prefix: Seq<char>, i: nat, j: nat)
    requires
        i != j,
    ensures
        prefix + crate::text::decimal(i) != prefix + crate::text::decimal(j),
{
    crate::text::lemma_prefixed_numbers_differ(prefix, i, j);
}

} // verus!
