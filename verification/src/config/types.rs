//! The configuration as it is written down, and as the proxy uses it.
use vstd::prelude::*;
use vstd::string::*;

use crate::address::SocketAddress;
use crate::proxy::{
    HttpListenerConfig, HttpListenerConfigModel, HttpsListenerConfig, HttpsListenerConfigModel,
    LoadBalancingAlgorithms, LoadMetric, PathRule, PathRuleModel, ProxyProtocolConfig, RulePosition,
    Tags, TcpListenerConfig, TcpListenerConfigModel, TlsVersion,
};

verus! {

/// How a path is compared.
#[derive(Debug, Clone, Copy, PartialEq, Eq, Structural, Hash)]
pub enum PathRuleType {
    Prefix,
    Regex,
    Equals,
}

impl DeepView for PathRuleType {
    type V = PathRuleType;

    open spec fn deep_view(&self) -> PathRuleType {
        *self
    }
}

/// The protocol that a listener of the file speaks.
#[derive(Debug, Clone, Copy, PartialEq, Eq, Structural, Hash)]
pub enum FileListenerProtocolConfig {
    Http,
    Https,
    Tcp,
}

impl DeepView for FileListenerProtocolConfig {
    type V = FileListenerProtocolConfig;

    open spec fn deep_view(&self) -> FileListenerProtocolConfig {
        *self
    }
}

/// The protocol that a cluster of the file speaks.
#[derive(Debug, Clone, Copy, PartialEq, Eq, Structural, Hash)]
pub enum FileClusterProtocolConfig {
    Http,
    Tcp,
}

impl DeepView for FileClusterProtocolConfig {
    type V = FileClusterProtocolConfig;

    open spec fn deep_view(&self) -> FileClusterProtocolConfig {
        *self
    }
}

/// An HTTP, HTTPS or TCP listener as ordered by a client. Certificates, key and answers are paths of
/// files.
#[derive(Debug, PartialEq, Eq)]
pub struct Listener {
    pub address: SocketAddress,
    pub protocol: FileListenerProtocolConfig,
    pub public_address: Option<SocketAddress>,
    pub answer_404: Option<String>,
    pub answer_503: Option<String>,
    pub tls_versions: Option<Vec<TlsVersion>>,
    pub cipher_list: Option<Vec<String>>,
    pub expect_proxy: Option<bool>,
    pub sticky_name: String,
    pub certificate: Option<String>,
    pub certificate_chain: Option<String>,
    pub key: Option<String>,
    pub front_timeout: Option<u32>,
    pub back_timeout: Option<u32>,
    pub connect_timeout: Option<u32>,
    pub request_timeout: Option<u32>,
}

/// What a [`Listener`] holds, as mathematical values.
#[verifier::ext_equal]
pub struct ListenerModel {
    pub address: SocketAddress,
    pub protocol: FileListenerProtocolConfig,
    pub public_address: Option<SocketAddress>,
    pub answer_404: Option<Seq<char>>,
    pub answer_503: Option<Seq<char>>,
    pub tls_versions: Option<Seq<TlsVersion>>,
    pub cipher_list: Option<Seq<Seq<char>>>,
    pub expect_proxy: Option<bool>,
    pub sticky_name: Seq<char>,
    pub certificate: Option<Seq<char>>,
    pub certificate_chain: Option<Seq<char>>,
    pub key: Option<Seq<char>>,
    pub front_timeout: Option<u32>,
    pub back_timeout: Option<u32>,
    pub connect_timeout: Option<u32>,
    pub request_timeout: Option<u32>,
}

impl DeepView for Listener {
    type V = ListenerModel;

    open spec fn deep_view(&self) -> ListenerModel {
        ListenerModel {
            address: self.address,
            protocol: self.protocol,
            public_address: self.public_address,
            answer_404: self.answer_404.deep_view(),
            answer_503: self.answer_503.deep_view(),
            tls_versions: self.tls_versions.deep_view(),
            cipher_list: self.cipher_list.deep_view(),
            expect_proxy: self.expect_proxy,
            sticky_name: self.sticky_name@,
            certificate: self.certificate.deep_view(),
            certificate_chain: self.certificate_chain.deep_view(),
            key: self.key.deep_view(),
            front_timeout: self.front_timeout,
            back_timeout: self.back_timeout,
            connect_timeout: self.connect_timeout,
            request_timeout: self.request_timeout,
        }
    }
}

impl Clone for Listener {
    fn clone(&self) -> (r: Self)
        ensures
            r.deep_view() == self.deep_view(),
    {
        let r = Listener {
            address: self.address,
            protocol: self.protocol,
            public_address: self.public_address,
            answer_404: self.answer_404.clone(),
            answer_503: self.answer_503.clone(),
            tls_versions: self.tls_versions.clone(),
            cipher_list: self.cipher_list.clone(),
            expect_proxy: self.expect_proxy,
            sticky_name: self.sticky_name.clone(),
            certificate: self.certificate.clone(),
            certificate_chain: self.certificate_chain.clone(),
            key: self.key.clone(),
            front_timeout: self.front_timeout,
            back_timeout: self.back_timeout,
            connect_timeout: self.connect_timeout,
            request_timeout: self.request_timeout,
        };
        proof {
            assert(r.tls_versions.deep_view() =~= self.tls_versions.deep_view());
            assert(r.cipher_list.deep_view() =~= self.cipher_list.deep_view());
        }
        r
    }
}

/// Where metrics are sent.
#[derive(Debug, PartialEq, Eq)]
pub struct MetricsConfig {
    pub address: SocketAddress,
    pub tagged_metrics: bool,
    pub prefix: Option<String>,
}

/// What a [`MetricsConfig`] holds, as mathematical values.
#[verifier::ext_equal]
pub struct MetricsConfigModel {
    pub address: SocketAddress,
    pub tagged_metrics: bool,
    pub prefix: Option<Seq<char>>,
}

impl DeepView for MetricsConfig {
    type V = MetricsConfigModel;

    open spec fn deep_view(&self) -> MetricsConfigModel {
        MetricsConfigModel {
            address: self.address,
            tagged_metrics: self.tagged_metrics,
            prefix: self.prefix.deep_view(),
        }
    }
}

impl Clone for MetricsConfig {
    fn clone(&self) -> (r: Self)
        ensures
            r.deep_view() == self.deep_view(),
    {
        MetricsConfig {
            address: self.address,
            tagged_metrics: self.tagged_metrics,
            prefix: self.prefix.clone(),
        }
    }
}

/// A frontend of the file. Certificates and key are paths of files.
#[derive(Debug, PartialEq, Eq)]
pub struct FileClusterFrontendConfig {
    pub address: SocketAddress,
    pub hostname: Option<String>,
    /// creates a path routing rule where the request URL path has to match this
    pub path: Option<String>,
    /// declares whether the path rule is Prefix (default), Regex, or Equals
    pub path_type: Option<PathRuleType>,
    pub method: Option<String>,
    pub certificate: Option<String>,
    pub key: Option<String>,
    pub certificate_chain: Option<String>,
    pub tls_versions: Vec<TlsVersion>,
    pub position: RulePosition,
    pub tags: Option<Tags>,
}

/// What a [`FileClusterFrontendConfig`] holds, as mathematical values.
#[verifier::ext_equal]
pub struct FileClusterFrontendConfigModel {
    pub address: SocketAddress,
    pub hostname: Option<Seq<char>>,
    pub path: Option<Seq<char>>,
    pub path_type: Option<PathRuleType>,
    pub method: Option<Seq<char>>,
    pub certificate: Option<Seq<char>>,
    pub key: Option<Seq<char>>,
    pub certificate_chain: Option<Seq<char>>,
    pub tls_versions: Seq<TlsVersion>,
    pub position: RulePosition,
    pub tags: Option<Seq<(Seq<char>, Seq<char>)>>,
}

impl DeepView for FileClusterFrontendConfig {
    type V = FileClusterFrontendConfigModel;

    open spec fn deep_view(&self) -> FileClusterFrontendConfigModel {
        FileClusterFrontendConfigModel {
            address: self.address,
            hostname: self.hostname.deep_view(),
            path: self.path.deep_view(),
            path_type: self.path_type,
            method: self.method.deep_view(),
            certificate: self.certificate.deep_view(),
            key: self.key.deep_view(),
            certificate_chain: self.certificate_chain.deep_view(),
            tls_versions: self.tls_versions.deep_view(),
            position: self.position,
            tags: self.tags.deep_view(),
        }
    }
}

impl Clone for FileClusterFrontendConfig {
    fn clone(&self) -> (r: Self)
        ensures
            r.deep_view() == self.deep_view(),
    {
        let r = FileClusterFrontendConfig {
            address: self.address,
            hostname: self.hostname.clone(),
            path: self.path.clone(),
            path_type: self.path_type,
            method: self.method.clone(),
            certificate: self.certificate.clone(),
            key: self.key.clone(),
            certificate_chain: self.certificate_chain.clone(),
            tls_versions: self.tls_versions.clone(),
            position: self.position,
            tags: self.tags.clone(),
        };
        proof {
            assert(r.tls_versions.deep_view() =~= self.tls_versions.deep_view());
            assert(r.tags.deep_view() =~= self.tags.deep_view());
        }
        r
    }
}

/// A backend of a cluster.
#[derive(Debug, PartialEq, Eq)]
pub struct BackendConfig {
    pub address: SocketAddress,
    pub weight: Option<u8>,
    pub sticky_id: Option<String>,
    pub backup: Option<bool>,
    pub backend_id: Option<String>,
}

/// What a [`BackendConfig`] holds, as mathematical values.
#[verifier::ext_equal]
pub struct BackendConfigModel {
    pub address: SocketAddress,
    pub weight: Option<u8>,
    pub sticky_id: Option<Seq<char>>,
    pub backup: Option<bool>,
    pub backend_id: Option<Seq<char>>,
}

impl DeepView for BackendConfig {
    type V = BackendConfigModel;

    open spec fn deep_view(&self) -> BackendConfigModel {
        BackendConfigModel {
            address: self.address,
            weight: self.weight,
            sticky_id: self.sticky_id.deep_view(),
            backup: self.backup,
            backend_id: self.backend_id.deep_view(),
        }
    }
}

impl Clone for BackendConfig {
    fn clone(&self) -> (r: Self)
        ensures
            r.deep_view() == self.deep_view(),
    {
        BackendConfig {
            address: self.address,
            weight: self.weight,
            sticky_id: self.sticky_id.clone(),
            backup: self.backup,
            backend_id: self.backend_id.clone(),
        }
    }
}

/// A cluster of the file.
#[derive(Debug, PartialEq, Eq)]
pub struct FileClusterConfig {
    pub frontends: Vec<FileClusterFrontendConfig>,
    pub backends: Vec<BackendConfig>,
    pub protocol: FileClusterProtocolConfig,
    pub sticky_session: Option<bool>,
    pub https_redirect: Option<bool>,
    pub send_proxy: Option<bool>,
    pub load_balancing: LoadBalancingAlgorithms,
    pub answer_503: Option<String>,
    pub load_metric: Option<LoadMetric>,
}

/// What a [`FileClusterConfig`] holds, as mathematical values.
#[verifier::ext_equal]
pub struct FileClusterConfigModel {
    pub frontends: Seq<FileClusterFrontendConfigModel>,
    pub backends: Seq<BackendConfigModel>,
    pub protocol: FileClusterProtocolConfig,
    pub sticky_session: Option<bool>,
    pub https_redirect: Option<bool>,
    pub send_proxy: Option<bool>,
    pub load_balancing: LoadBalancingAlgorithms,
    pub answer_503: Option<Seq<char>>,
    pub load_metric: Option<LoadMetric>,
}

impl DeepView for FileClusterConfig {
    type V = FileClusterConfigModel;

    open spec fn deep_view(&self) -> FileClusterConfigModel {
        FileClusterConfigModel {
            frontends: self.frontends.deep_view(),
            backends: self.backends.deep_view(),
            protocol: self.protocol,
            sticky_session: self.sticky_session,
            https_redirect: self.https_redirect,
            send_proxy: self.send_proxy,
            load_balancing: self.load_balancing,
            answer_503: self.answer_503.deep_view(),
            load_metric: self.load_metric,
        }
    }
}

impl Clone for FileClusterConfig {
    fn clone(&self) -> (r: Self)
        ensures
            r.deep_view() == self.deep_view(),
    {
        let r = FileClusterConfig {
            frontends: self.frontends.clone(),
            backends: self.backends.clone(),
            protocol: self.protocol,
            sticky_session: self.sticky_session,
            https_redirect: self.https_redirect,
            send_proxy: self.send_proxy,
            load_balancing: self.load_balancing,
            answer_503: self.answer_503.clone(),
            load_metric: self.load_metric,
        };
        proof {
            assert(r.frontends.deep_view() =~= self.frontends.deep_view());
            assert(r.backends.deep_view() =~= self.backends.deep_view());
        }
        r
    }
}

/// An HTTP or HTTPS frontend with the contents of its certificate files.
#[derive(Debug, PartialEq, Eq)]
pub struct HttpFrontendConfig {
    pub address: SocketAddress,
    pub hostname: String,
    pub path: PathRule,
    pub method: Option<String>,
    pub certificate: Option<String>,
    pub key: Option<String>,
    pub certificate_chain: Option<Vec<String>>,
    pub tls_versions: Vec<TlsVersion>,
    pub position: RulePosition,
    pub tags: Option<Tags>,
}

/// What a [`HttpFrontendConfig`] holds, as mathematical values.
#[verifier::ext_equal]
pub struct HttpFrontendConfigModel {
    pub address: SocketAddress,
    pub hostname: Seq<char>,
    pub path: PathRuleModel,
    pub method: Option<Seq<char>>,
    pub certificate: Option<Seq<char>>,
    pub key: Option<Seq<char>>,
    pub certificate_chain: Option<Seq<Seq<char>>>,
    pub tls_versions: Seq<TlsVersion>,
    pub position: RulePosition,
    pub tags: Option<Seq<(Seq<char>, Seq<char>)>>,
}

impl DeepView for HttpFrontendConfig {
    type V = HttpFrontendConfigModel;

    open spec fn deep_view(&self) -> HttpFrontendConfigModel {
        HttpFrontendConfigModel {
            address: self.address,
            hostname: self.hostname@,
            path: self.path.deep_view(),
            method: self.method.deep_view(),
            certificate: self.certificate.deep_view(),
            key: self.key.deep_view(),
            certificate_chain: self.certificate_chain.deep_view(),
            tls_versions: self.tls_versions.deep_view(),
            position: self.position,
            tags: self.tags.deep_view(),
        }
    }
}

impl Clone for HttpFrontendConfig {
    fn clone(&self) -> (r: Self)
        ensures
            r.deep_view() == self.deep_view(),
    {
        let r = HttpFrontendConfig {
            address: self.address,
            hostname: self.hostname.clone(),
            path: self.path.clone(),
            method: self.method.clone(),
            certificate: self.certificate.clone(),
            key: self.key.clone(),
            certificate_chain: self.certificate_chain.clone(),
            tls_versions: self.tls_versions.clone(),
            position: self.position,
            tags: self.tags.clone(),
        };
        proof {
            assert(r.certificate_chain.deep_view() =~= self.certificate_chain.deep_view());
            assert(r.tls_versions.deep_view() =~= self.tls_versions.deep_view());
            assert(r.tags.deep_view() =~= self.tags.deep_view());
        }
        r
    }
}

/// A cluster that speaks HTTP.
#[derive(Debug, PartialEq, Eq)]
pub struct HttpClusterConfig {
    pub cluster_id: String,
    pub frontends: Vec<HttpFrontendConfig>,
    pub backends: Vec<BackendConfig>,
    pub sticky_session: bool,
    pub https_redirect: bool,
    pub load_balancing: LoadBalancingAlgorithms,
    pub load_metric: Option<LoadMetric>,
    pub answer_503: Option<String>,
}

/// What a [`HttpClusterConfig`] holds, as mathematical values.
#[verifier::ext_equal]
pub struct HttpClusterConfigModel {
    pub cluster_id: Seq<char>,
    pub frontends: Seq<HttpFrontendConfigModel>,
    pub backends: Seq<BackendConfigModel>,
    pub sticky_session: bool,
    pub https_redirect: bool,
    pub load_balancing: LoadBalancingAlgorithms,
    pub load_metric: Option<LoadMetric>,
    pub answer_503: Option<Seq<char>>,
}

impl DeepView for HttpClusterConfig {
    type V = HttpClusterConfigModel;

    open spec fn deep_view(&self) -> HttpClusterConfigModel {
        HttpClusterConfigModel {
            cluster_id: self.cluster_id@,
            frontends: self.frontends.deep_view(),
            backends: self.backends.deep_view(),
            sticky_session: self.sticky_session,
            https_redirect: self.https_redirect,
            load_balancing: self.load_balancing,
            load_metric: self.load_metric,
            answer_503: self.answer_503.deep_view(),
        }
    }
}

impl Clone for HttpClusterConfig {
    fn clone(&self) -> (r: Self)
        ensures
            r.deep_view() == self.deep_view(),
    {
        let r = HttpClusterConfig {
            cluster_id: self.cluster_id.clone(),
            frontends: self.frontends.clone(),
            backends: self.backends.clone(),
            sticky_session: self.sticky_session,
            https_redirect: self.https_redirect,
            load_balancing: self.load_balancing,
            load_metric: self.load_metric,
            answer_503: self.answer_503.clone(),
        };
        proof {
            assert(r.frontends.deep_view() =~= self.frontends.deep_view());
            assert(r.backends.deep_view() =~= self.backends.deep_view());
        }
        r
    }
}

/// A TCP frontend.
#[derive(Debug, PartialEq, Eq)]
pub struct TcpFrontendConfig {
    pub address: SocketAddress,
    pub tags: Option<Tags>,
}

/// What a [`TcpFrontendConfig`] holds, as mathematical values.
#[verifier::ext_equal]
pub struct TcpFrontendConfigModel {
    pub address: SocketAddress,
    pub tags: Option<Seq<(Seq<char>, Seq<char>)>>,
}

impl DeepView for TcpFrontendConfig {
    type V = TcpFrontendConfigModel;

    open spec fn deep_view(&self) -> TcpFrontendConfigModel {
        TcpFrontendConfigModel {
            address: self.address,
            tags: self.tags.deep_view(),
        }
    }
}

impl Clone for TcpFrontendConfig {
    fn clone(&self) -> (r: Self)
        ensures
            r.deep_view() == self.deep_view(),
    {
        let r = TcpFrontendConfig {
            address: self.address,
            tags: self.tags.clone(),
        };
        proof {
            assert(r.tags.deep_view() =~= self.tags.deep_view());
        }
        r
    }
}

/// A cluster that forwards TCP connections.
#[derive(Debug, PartialEq, Eq)]
pub struct TcpClusterConfig {
    pub cluster_id: String,
    pub frontends: Vec<TcpFrontendConfig>,
    pub backends: Vec<BackendConfig>,
    pub proxy_protocol: Option<ProxyProtocolConfig>,
    pub load_balancing: LoadBalancingAlgorithms,
    pub load_metric: Option<LoadMetric>,
}

/// What a [`TcpClusterConfig`] holds, as mathematical values.
#[verifier::ext_equal]
pub struct TcpClusterConfigModel {
    pub cluster_id: Seq<char>,
    pub frontends: Seq<TcpFrontendConfigModel>,
    pub backends: Seq<BackendConfigModel>,
    pub proxy_protocol: Option<ProxyProtocolConfig>,
    pub load_balancing: LoadBalancingAlgorithms,
    pub load_metric: Option<LoadMetric>,
}

impl DeepView for TcpClusterConfig {
    type V = TcpClusterConfigModel;

    open spec fn deep_view(&self) -> TcpClusterConfigModel {
        TcpClusterConfigModel {
            cluster_id: self.cluster_id@,
            frontends: self.frontends.deep_view(),
            backends: self.backends.deep_view(),
            proxy_protocol: self.proxy_protocol,
            load_balancing: self.load_balancing,
            load_metric: self.load_metric,
        }
    }
}

impl Clone for TcpClusterConfig {
    fn clone(&self) -> (r: Self)
        ensures
            r.deep_view() == self.deep_view(),
    {
        let r = TcpClusterConfig {
            cluster_id: self.cluster_id.clone(),
            frontends: self.frontends.clone(),
            backends: self.backends.clone(),
            proxy_protocol: self.proxy_protocol,
            load_balancing: self.load_balancing,
            load_metric: self.load_metric,
        };
        proof {
            assert(r.frontends.deep_view() =~= self.frontends.deep_view());
            assert(r.backends.deep_view() =~= self.backends.deep_view());
        }
        r
    }
}

/// A cluster of the configuration.
#[derive(Debug, PartialEq, Eq)]
pub enum ClusterConfig {
    Http(HttpClusterConfig),
    Tcp(TcpClusterConfig),
}

/// What a [`ClusterConfig`] holds, as mathematical values.
#[verifier::ext_equal]
pub enum ClusterConfigModel {
    Http(HttpClusterConfigModel),
    Tcp(TcpClusterConfigModel),
}

impl DeepView for ClusterConfig {
    type V = ClusterConfigModel;

    open spec fn deep_view(&self) -> ClusterConfigModel {
        match self {
            ClusterConfig::Http(x) => ClusterConfigModel::Http(x.deep_view()),
            ClusterConfig::Tcp(x) => ClusterConfigModel::Tcp(x.deep_view()),
        }
    }
}

impl Clone for ClusterConfig {
    fn clone(&self) -> (r: Self)
        ensures
            r.deep_view() == self.deep_view(),
    {
        match self {
            ClusterConfig::Http(x) => ClusterConfig::Http(x.clone()),
            ClusterConfig::Tcp(x) => ClusterConfig::Tcp(x.clone()),
        }
    }
}

/// The configuration file. The clusters stand in the order in which they are gone through, each
/// under an identifier of its own.
#[derive(Debug, PartialEq, Eq)]
pub struct FileConfig {
    pub command_socket: Option<String>,
    pub command_buffer_size: Option<usize>,
    pub max_command_buffer_size: Option<usize>,
    pub max_connections: Option<usize>,
    pub min_buffers: Option<usize>,
    pub max_buffers: Option<usize>,
    pub buffer_size: Option<usize>,
    pub saved_state: Option<String>,
    pub automatic_state_save: Option<bool>,
    pub log_level: Option<String>,
    pub log_target: Option<String>,
    pub log_access_target: Option<String>,
    pub worker_count: Option<u16>,
    pub worker_automatic_restart: Option<bool>,
    pub metrics: Option<MetricsConfig>,
    pub listeners: Option<Vec<Listener>>,
    pub clusters: Option<Vec<(String, FileClusterConfig)>>,
    pub handle_process_affinity: Option<bool>,
    pub ctl_command_timeout: Option<u64>,
    pub pid_file_path: Option<String>,
    pub activate_listeners: Option<bool>,
    pub front_timeout: Option<u32>,
    pub back_timeout: Option<u32>,
    pub connect_timeout: Option<u32>,
    pub zombie_check_interval: Option<u32>,
    pub accept_queue_timeout: Option<u32>,
    pub request_timeout: Option<u32>,
}

/// What a [`FileConfig`] holds, as mathematical values.
#[verifier::ext_equal]
pub struct FileConfigModel {
    pub command_socket: Option<Seq<char>>,
    pub command_buffer_size: Option<usize>,
    pub max_command_buffer_size: Option<usize>,
    pub max_connections: Option<usize>,
    pub min_buffers: Option<usize>,
    pub max_buffers: Option<usize>,
    pub buffer_size: Option<usize>,
    pub saved_state: Option<Seq<char>>,
    pub automatic_state_save: Option<bool>,
    pub log_level: Option<Seq<char>>,
    pub log_target: Option<Seq<char>>,
    pub log_access_target: Option<Seq<char>>,
    pub worker_count: Option<u16>,
    pub worker_automatic_restart: Option<bool>,
    pub metrics: Option<MetricsConfigModel>,
    pub listeners: Option<Seq<ListenerModel>>,
    pub clusters: Option<Seq<(Seq<char>, FileClusterConfigModel)>>,
    pub handle_process_affinity: Option<bool>,
    pub ctl_command_timeout: Option<u64>,
    pub pid_file_path: Option<Seq<char>>,
    pub activate_listeners: Option<bool>,
    pub front_timeout: Option<u32>,
    pub back_timeout: Option<u32>,
    pub connect_timeout: Option<u32>,
    pub zombie_check_interval: Option<u32>,
    pub accept_queue_timeout: Option<u32>,
    pub request_timeout: Option<u32>,
}

impl DeepView for FileConfig {
    type V = FileConfigModel;

    open spec fn deep_view(&self) -> FileConfigModel {
        FileConfigModel {
            command_socket: self.command_socket.deep_view(),
            command_buffer_size: self.command_buffer_size,
            max_command_buffer_size: self.max_command_buffer_size,
            max_connections: self.max_connections,
            min_buffers: self.min_buffers,
            max_buffers: self.max_buffers,
            buffer_size: self.buffer_size,
            saved_state: self.saved_state.deep_view(),
            automatic_state_save: self.automatic_state_save,
            log_level: self.log_level.deep_view(),
            log_target: self.log_target.deep_view(),
            log_access_target: self.log_access_target.deep_view(),
            worker_count: self.worker_count,
            worker_automatic_restart: self.worker_automatic_restart,
            metrics: self.metrics.deep_view(),
            listeners: self.listeners.deep_view(),
            clusters: self.clusters.deep_view(),
            handle_process_affinity: self.handle_process_affinity,
            ctl_command_timeout: self.ctl_command_timeout,
            pid_file_path: self.pid_file_path.deep_view(),
            activate_listeners: self.activate_listeners,
            front_timeout: self.front_timeout,
            back_timeout: self.back_timeout,
            connect_timeout: self.connect_timeout,
            zombie_check_interval: self.zombie_check_interval,
            accept_queue_timeout: self.accept_queue_timeout,
            request_timeout: self.request_timeout,
        }
    }
}

/// The configuration that the proxy runs with. The clusters stand in the order in which they are
/// gone through, each under an identifier of its own.
#[derive(Debug, PartialEq, Eq)]
pub struct Config {
    pub config_path: String,
    pub command_socket: String,
    pub command_buffer_size: usize,
    pub max_command_buffer_size: usize,
    pub max_connections: usize,
    pub min_buffers: usize,
    pub max_buffers: usize,
    pub buffer_size: usize,
    pub saved_state: Option<String>,
    pub automatic_state_save: bool,
    pub log_level: String,
    pub log_target: String,
    pub log_access_target: Option<String>,
    pub worker_count: u16,
    pub worker_automatic_restart: bool,
    pub metrics: Option<MetricsConfig>,
    pub http_listeners: Vec<HttpListenerConfig>,
    pub https_listeners: Vec<HttpsListenerConfig>,
    pub tcp_listeners: Vec<TcpListenerConfig>,
    pub clusters: Vec<(String, ClusterConfig)>,
    pub handle_process_affinity: bool,
    pub ctl_command_timeout: u64,
    pub pid_file_path: Option<String>,
    pub activate_listeners: bool,
    pub front_timeout: u32,
    pub back_timeout: u32,
    pub connect_timeout: u32,
    pub zombie_check_interval: u32,
    pub accept_queue_timeout: u32,
}

/// What a [`Config`] holds, as mathematical values.
#[verifier::ext_equal]
pub struct ConfigModel {
    pub config_path: Seq<char>,
    pub command_socket: Seq<char>,
    pub command_buffer_size: usize,
    pub max_command_buffer_size: usize,
    pub max_connections: usize,
    pub min_buffers: usize,
    pub max_buffers: usize,
    pub buffer_size: usize,
    pub saved_state: Option<Seq<char>>,
    pub automatic_state_save: bool,
    pub log_level: Seq<char>,
    pub log_target: Seq<char>,
    pub log_access_target: Option<Seq<char>>,
    pub worker_count: u16,
    pub worker_automatic_restart: bool,
    pub metrics: Option<MetricsConfigModel>,
    pub http_listeners: Seq<HttpListenerConfigModel>,
    pub https_listeners: Seq<HttpsListenerConfigModel>,
    pub tcp_listeners: Seq<TcpListenerConfigModel>,
    pub clusters: Seq<(Seq<char>, ClusterConfigModel)>,
    pub handle_process_affinity: bool,
    pub ctl_command_timeout: u64,
    pub pid_file_path: Option<Seq<char>>,
    pub activate_listeners: bool,
    pub front_timeout: u32,
    pub back_timeout: u32,
    pub connect_timeout: u32,
    pub zombie_check_interval: u32,
    pub accept_queue_timeout: u32,
}

impl DeepView for Config {
    type V = ConfigModel;

    open spec fn deep_view(&self) -> ConfigModel {
        ConfigModel {
            config_path: self.config_path@,
            command_socket: self.command_socket@,
            command_buffer_size: self.command_buffer_size,
            max_command_buffer_size: self.max_command_buffer_size,
            max_connections: self.max_connections,
            min_buffers: self.min_buffers,
            max_buffers: self.max_buffers,
            buffer_size: self.buffer_size,
            saved_state: self.saved_state.deep_view(),
            automatic_state_save: self.automatic_state_save,
            log_level: self.log_level@,
            log_target: self.log_target@,
            log_access_target: self.log_access_target.deep_view(),
            worker_count: self.worker_count,
            worker_automatic_restart: self.worker_automatic_restart,
            metrics: self.metrics.deep_view(),
            http_listeners: self.http_listeners.deep_view(),
            https_listeners: self.https_listeners.deep_view(),
            tcp_listeners: self.tcp_listeners.deep_view(),
            clusters: self.clusters.deep_view(),
            handle_process_affinity: self.handle_process_affinity,
            ctl_command_timeout: self.ctl_command_timeout,
            pid_file_path: self.pid_file_path.deep_view(),
            activate_listeners: self.activate_listeners,
            front_timeout: self.front_timeout,
            back_timeout: self.back_timeout,
            connect_timeout: self.connect_timeout,
            zombie_check_interval: self.zombie_check_interval,
            accept_queue_timeout: self.accept_queue_timeout,
        }
    }
}

fn clone_clusters(clusters: &Vec<(String, ClusterConfig)>) -> (r: Vec<(String, ClusterConfig)>)
    ensures
        r.deep_view() == clusters.deep_view(),
{
    let ghost all = clusters.deep_view();
    let mut r: Vec<(String, ClusterConfig)> = Vec::new();
    let mut i: usize = 0;
    while i < clusters.len()
        invariant
            i <= clusters.len(),
            all == clusters.deep_view(),
            r.len() == i,
            forall|k: int| 0 <= k < i ==> (#[trigger] r@[k]).deep_view() == all[k],
        decreases clusters.len() - i,
    {
        let cluster = (clusters[i].0.clone(), clusters[i].1.clone());
        proof {
            assert(all[i as int] == clusters@[i as int].deep_view());
        }
        r.push(cluster);
        i = i + 1;
    }
    proof {
        assert(r.deep_view() =~= all);
    }
    r
}

impl Clone for Config {
    fn clone(&self) -> (r: Self)
        ensures
            r.deep_view() == self.deep_view(),
    {
        let r = Config {
            config_path: self.config_path.clone(),
            command_socket: self.command_socket.clone(),
            command_buffer_size: self.command_buffer_size,
            max_command_buffer_size: self.max_command_buffer_size,
            max_connections: self.max_connections,
            min_buffers: self.min_buffers,
            max_buffers: self.max_buffers,
            buffer_size: self.buffer_size,
            saved_state: self.saved_state.clone(),
            automatic_state_save: self.automatic_state_save,
            log_level: self.log_level.clone(),
            log_target: self.log_target.clone(),
            log_access_target: self.log_access_target.clone(),
            worker_count: self.worker_count,
            worker_automatic_restart: self.worker_automatic_restart,
            metrics: self.metrics.clone(),
            http_listeners: self.http_listeners.clone(),
            https_listeners: self.https_listeners.clone(),
            tcp_listeners: self.tcp_listeners.clone(),
            clusters: clone_clusters(&self.clusters),
            handle_process_affinity: self.handle_process_affinity,
            ctl_command_timeout: self.ctl_command_timeout,
            pid_file_path: self.pid_file_path.clone(),
            activate_listeners: self.activate_listeners,
            front_timeout: self.front_timeout,
            back_timeout: self.back_timeout,
            connect_timeout: self.connect_timeout,
            zombie_check_interval: self.zombie_check_interval,
            accept_queue_timeout: self.accept_queue_timeout,
        };
        proof {
            assert(r.http_listeners.deep_view() =~= self.http_listeners.deep_view());
            assert(r.https_listeners.deep_view() =~= self.https_listeners.deep_view());
            assert(r.tcp_listeners.deep_view() =~= self.tcp_listeners.deep_view());
        }
        r
    }
}

} // verus!
