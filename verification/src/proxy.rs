//! What a worker is ordered to serve: listeners, clusters, frontends, backends, certificates.
use vstd::prelude::*;
use vstd::string::*;

use crate::address::SocketAddress;
use crate::collections::TextMap;

verus! {

/// Tags by name.
pub type Tags = TextMap<String>;

/// A version of the transport layer security protocol.
#[derive(Debug, Clone, Copy, PartialEq, Eq, Structural, Hash)]
pub enum TlsVersion {
    SSLv2,
    SSLv3,
    TLSv1_0,
    TLSv1_1,
    TLSv1_2,
    TLSv1_3,
}

impl DeepView for TlsVersion {
    type V = TlsVersion;

    open spec fn deep_view(&self) -> TlsVersion {
        *self
    }
}

/// How a backend is picked among those of a cluster.
#[derive(Debug, Clone, Copy, PartialEq, Eq, Structural, Hash)]
pub enum LoadBalancingAlgorithms {
    RoundRobin,
    Random,
    LeastLoaded,
    PowerOfTwo,
}

impl DeepView for LoadBalancingAlgorithms {
    type V = LoadBalancingAlgorithms;

    open spec fn deep_view(&self) -> LoadBalancingAlgorithms {
        *self
    }
}

impl Default for LoadBalancingAlgorithms {
    fn default() -> (r: Self)
        ensures
            r == LoadBalancingAlgorithms::RoundRobin,
    {
        LoadBalancingAlgorithms::RoundRobin
    }
}

/// What the load of a backend is measured by.
#[derive(Debug, Clone, Copy, PartialEq, Eq, Structural, Hash)]
pub enum LoadMetric {
    Connections,
    Requests,
    ConnectionTime,
}

impl DeepView for LoadMetric {
    type V = LoadMetric;

    open spec fn deep_view(&self) -> LoadMetric {
        *self
    }
}

/// The share of a backend in the load of its cluster.
#[derive(Debug, Clone, Copy, PartialEq, Eq, Structural, Hash)]
pub struct LoadBalancingParams {
    pub weight: u8,
}

impl DeepView for LoadBalancingParams {
    type V = LoadBalancingParams;

    open spec fn deep_view(&self) -> LoadBalancingParams {
        *self
    }
}

impl Default for LoadBalancingParams {
    fn default() -> (r: Self)
        ensures
            r == (LoadBalancingParams { weight: 100 }),
    {
        LoadBalancingParams { weight: 100 }
    }
}

/// Where a routing rule stands: before, behind or within the tree of the rules.
#[derive(Debug, Clone, Copy, PartialEq, Eq, Structural, Hash)]
pub enum RulePosition {
    Pre,
    Post,
    Tree,
}

impl DeepView for RulePosition {
    type V = RulePosition;

    open spec fn deep_view(&self) -> RulePosition {
        *self
    }
}

impl Default for RulePosition {
    fn default() -> (r: Self)
        ensures
            r == RulePosition::Tree,
    {
        RulePosition::Tree
    }
}

/// The protocol that a listener speaks.
#[derive(Debug, Clone, Copy, PartialEq, Eq, Structural, Hash)]
pub enum ListenerType {
    HTTP,
    HTTPS,
    TCP,
}

impl DeepView for ListenerType {
    type V = ListenerType;

    open spec fn deep_view(&self) -> ListenerType {
        *self
    }
}

/// What a TCP cluster does about the proxy protocol header.
#[derive(Debug, Clone, Copy, PartialEq, Eq, Structural, Hash)]
pub enum ProxyProtocolConfig {
    ExpectHeader,
    SendHeader,
    RelayHeader,
}

impl DeepView for ProxyProtocolConfig {
    type V = ProxyProtocolConfig;

    open spec fn deep_view(&self) -> ProxyProtocolConfig {
        *self
    }
}

/// What the path of a request has to look like.
#[derive(Debug, PartialEq, Eq)]
pub enum PathRule {
    Prefix(String),
    Regex(String),
    Equals(String),
}

/// What a [`PathRule`] holds, as mathematical values.
#[verifier::ext_equal]
pub enum PathRuleModel {
    Prefix(Seq<char>),
    Regex(Seq<char>),
    Equals(Seq<char>),
}

impl DeepView for PathRule {
    type V = PathRuleModel;

    open spec fn deep_view(&self) -> PathRuleModel {
        match self {
            PathRule::Prefix(x) => PathRuleModel::Prefix(x@),
            PathRule::Regex(x) => PathRuleModel::Regex(x@),
            PathRule::Equals(x) => PathRuleModel::Equals(x@),
        }
    }
}

impl Clone for PathRule {
    fn clone(&self) -> (r: Self)
        ensures
            r.deep_view() == self.deep_view(),
    {
        match self {
            PathRule::Prefix(x) => PathRule::Prefix(x.clone()),
            PathRule::Regex(x) => PathRule::Regex(x.clone()),
            PathRule::Equals(x) => PathRule::Equals(x.clone()),
        }
    }
}

/// Where a request that matches a frontend goes.
#[derive(Debug, PartialEq, Eq)]
pub enum Route {
    Deny,
    ClusterId(String),
}

/// What a [`Route`] holds, as mathematical values.
#[verifier::ext_equal]
pub enum RouteModel {
    Deny,
    ClusterId(Seq<char>),
}

impl DeepView for Route {
    type V = RouteModel;

    open spec fn deep_view(&self) -> RouteModel {
        match self {
            Route::Deny => RouteModel::Deny,
            Route::ClusterId(x) => RouteModel::ClusterId(x@),
        }
    }
}

impl Clone for Route {
    fn clone(&self) -> (r: Self)
        ensures
            r.deep_view() == self.deep_view(),
    {
        match self {
            Route::Deny => Route::Deny,
            Route::ClusterId(x) => Route::ClusterId(x.clone()),
        }
    }
}

/// An HTTP listener. The timeouts are in seconds.
#[derive(Debug, PartialEq, Eq)]
pub struct HttpListenerConfig {
    pub address: SocketAddress,
    pub public_address: Option<SocketAddress>,
    pub answer_404: String,
    pub answer_503: String,
    pub expect_proxy: bool,
    pub sticky_name: String,
    pub front_timeout: u32,
    pub back_timeout: u32,
    pub connect_timeout: u32,
    pub request_timeout: u32,
}

/// What a [`HttpListenerConfig`] holds, as mathematical values.
#[verifier::ext_equal]
pub struct HttpListenerConfigModel {
    pub address: SocketAddress,
    pub public_address: Option<SocketAddress>,
    pub answer_404: Seq<char>,
    pub answer_503: Seq<char>,
    pub expect_proxy: bool,
    pub sticky_name: Seq<char>,
    pub front_timeout: u32,
    pub back_timeout: u32,
    pub connect_timeout: u32,
    pub request_timeout: u32,
}

impl DeepView for HttpListenerConfig {
    type V = HttpListenerConfigModel;

    open spec fn deep_view(&self) -> HttpListenerConfigModel {
        HttpListenerConfigModel {
            address: self.address,
            public_address: self.public_address,
            answer_404: self.answer_404@,
            answer_503: self.answer_503@,
            expect_proxy: self.expect_proxy,
            sticky_name: self.sticky_name@,
            front_timeout: self.front_timeout,
            back_timeout: self.back_timeout,
            connect_timeout: self.connect_timeout,
            request_timeout: self.request_timeout,
        }
    }
}

impl Clone for HttpListenerConfig {
    fn clone(&self) -> (r: Self)
        ensures
            r.deep_view() == self.deep_view(),
    {
        HttpListenerConfig {
            address: self.address,
            public_address: self.public_address,
            answer_404: self.answer_404.clone(),
            answer_503: self.answer_503.clone(),
            expect_proxy: self.expect_proxy,
            sticky_name: self.sticky_name.clone(),
            front_timeout: self.front_timeout,
            back_timeout: self.back_timeout,
            connect_timeout: self.connect_timeout,
            request_timeout: self.request_timeout,
        }
    }
}

/// An HTTPS listener. The timeouts are in seconds.
#[derive(Debug, PartialEq, Eq)]
pub struct HttpsListenerConfig {
    pub address: SocketAddress,
    pub public_address: Option<SocketAddress>,
    pub answer_404: String,
    pub answer_503: String,
    pub versions: Vec<TlsVersion>,
    pub cipher_list: Vec<String>,
    pub cipher_suites: Vec<String>,
    pub signature_algorithms: Vec<String>,
    pub groups_list: Vec<String>,
    pub expect_proxy: bool,
    pub sticky_name: String,
    pub certificate: Option<String>,
    pub certificate_chain: Vec<String>,
    pub key: Option<String>,
    pub front_timeout: u32,
    pub back_timeout: u32,
    pub connect_timeout: u32,
    pub request_timeout: u32,
}

/// What a [`HttpsListenerConfig`] holds, as mathematical values.
#[verifier::ext_equal]
pub struct HttpsListenerConfigModel {
    pub address: SocketAddress,
    pub public_address: Option<SocketAddress>,
    pub answer_404: Seq<char>,
    pub answer_503: Seq<char>,
    pub versions: Seq<TlsVersion>,
    pub cipher_list: Seq<Seq<char>>,
    pub cipher_suites: Seq<Seq<char>>,
    pub signature_algorithms: Seq<Seq<char>>,
    pub groups_list: Seq<Seq<char>>,
    pub expect_proxy: bool,
    pub sticky_name: Seq<char>,
    pub certificate: Option<Seq<char>>,
    pub certificate_chain: Seq<Seq<char>>,
    pub key: Option<Seq<char>>,
    pub front_timeout: u32,
    pub back_timeout: u32,
    pub connect_timeout: u32,
    pub request_timeout: u32,
}

impl DeepView for HttpsListenerConfig {
    type V = HttpsListenerConfigModel;

    open spec fn deep_view(&self) -> HttpsListenerConfigModel {
        HttpsListenerConfigModel {
            address: self.address,
            public_address: self.public_address,
            answer_404: self.answer_404@,
            answer_503: self.answer_503@,
            versions: self.versions.deep_view(),
            cipher_list: self.cipher_list.deep_view(),
            cipher_suites: self.cipher_suites.deep_view(),
            signature_algorithms: self.signature_algorithms.deep_view(),
            groups_list: self.groups_list.deep_view(),
            expect_proxy: self.expect_proxy,
            sticky_name: self.sticky_name@,
            certificate: self.certificate.deep_view(),
            certificate_chain: self.certificate_chain.deep_view(),
            key: self.key.deep_view(),
            front_timeout: self.front_timeout,
            back_timeout: self.back_timeout,
            connect_timeout: self.connect_timeout,
            request_timeout: self.request_timeout,
        }
    }
}

impl Clone for HttpsListenerConfig {
    fn clone(&self) -> (r: Self)
        ensures
            r.deep_view() == self.deep_view(),
    {
        let r = HttpsListenerConfig {
            address: self.address,
            public_address: self.public_address,
            answer_404: self.answer_404.clone(),
            answer_503: self.answer_503.clone(),
            versions: self.versions.clone(),
            cipher_list: self.cipher_list.clone(),
            cipher_suites: self.cipher_suites.clone(),
            signature_algorithms: self.signature_algorithms.clone(),
            groups_list: self.groups_list.clone(),
            expect_proxy: self.expect_proxy,
            sticky_name: self.sticky_name.clone(),
            certificate: self.certificate.clone(),
            certificate_chain: self.certificate_chain.clone(),
            key: self.key.clone(),
            front_timeout: self.front_timeout,
            back_timeout: self.back_timeout,
            connect_timeout: self.connect_timeout,
            request_timeout: self.request_timeout,
        };
        proof {
            assert(r.versions.deep_view() =~= self.versions.deep_view());
            assert(r.cipher_list.deep_view() =~= self.cipher_list.deep_view());
            assert(r.cipher_suites.deep_view() =~= self.cipher_suites.deep_view());
            assert(r.signature_algorithms.deep_view() =~= self.signature_algorithms.deep_view());
            assert(r.groups_list.deep_view() =~= self.groups_list.deep_view());
            assert(r.certificate_chain.deep_view() =~= self.certificate_chain.deep_view());
        }
        r
    }
}

/// A TCP listener. The timeouts are in seconds.
#[derive(Debug, PartialEq, Eq)]
pub struct TcpListenerConfig {
    pub address: SocketAddress,
    pub public_address: Option<SocketAddress>,
    pub expect_proxy: bool,
    pub front_timeout: u32,
    pub back_timeout: u32,
    pub connect_timeout: u32,
}

/// What a [`TcpListenerConfig`] holds, as mathematical values.
#[verifier::ext_equal]
pub struct TcpListenerConfigModel {
    pub address: SocketAddress,
    pub public_address: Option<SocketAddress>,
    pub expect_proxy: bool,
    pub front_timeout: u32,
    pub back_timeout: u32,
    pub connect_timeout: u32,
}

impl DeepView for TcpListenerConfig {
    type V = TcpListenerConfigModel;

    open spec fn deep_view(&self) -> TcpListenerConfigModel {
        TcpListenerConfigModel {
            address: self.address,
            public_address: self.public_address,
            expect_proxy: self.expect_proxy,
            front_timeout: self.front_timeout,
            back_timeout: self.back_timeout,
            connect_timeout: self.connect_timeout,
        }
    }
}

impl Clone for TcpListenerConfig {
    fn clone(&self) -> (r: Self)
        ensures
            r.deep_view() == self.deep_view(),
    {
        TcpListenerConfig {
            address: self.address,
            public_address: self.public_address,
            expect_proxy: self.expect_proxy,
            front_timeout: self.front_timeout,
            back_timeout: self.back_timeout,
            connect_timeout: self.connect_timeout,
        }
    }
}

/// A group of backends that serve the same requests.
#[derive(Debug, PartialEq, Eq)]
pub struct Cluster {
    pub cluster_id: String,
    pub sticky_session: bool,
    pub https_redirect: bool,
    pub proxy_protocol: Option<ProxyProtocolConfig>,
    pub load_balancing: LoadBalancingAlgorithms,
    pub answer_503: Option<String>,
    pub load_metric: Option<LoadMetric>,
}

/// What a [`Cluster`] holds, as mathematical values.
#[verifier::ext_equal]
pub struct ClusterModel {
    pub cluster_id: Seq<char>,
    pub sticky_session: bool,
    pub https_redirect: bool,
    pub proxy_protocol: Option<ProxyProtocolConfig>,
    pub load_balancing: LoadBalancingAlgorithms,
    pub answer_503: Option<Seq<char>>,
    pub load_metric: Option<LoadMetric>,
}

impl DeepView for Cluster {
    type V = ClusterModel;

    open spec fn deep_view(&self) -> ClusterModel {
        ClusterModel {
            cluster_id: self.cluster_id@,
            sticky_session: self.sticky_session,
            https_redirect: self.https_redirect,
            proxy_protocol: self.proxy_protocol,
            load_balancing: self.load_balancing,
            answer_503: self.answer_503.deep_view(),
            load_metric: self.load_metric,
        }
    }
}

impl Clone for Cluster {
    fn clone(&self) -> (r: Self)
        ensures
            r.deep_view() == self.deep_view(),
    {
        Cluster {
            cluster_id: self.cluster_id.clone(),
            sticky_session: self.sticky_session,
            https_redirect: self.https_redirect,
            proxy_protocol: self.proxy_protocol,
            load_balancing: self.load_balancing,
            answer_503: self.answer_503.clone(),
            load_metric: self.load_metric,
        }
    }
}

/// A rule that sends the requests for a hostname and a path to a cluster.
#[derive(Debug, PartialEq, Eq)]
pub struct HttpFrontend {
    pub route: Route,
    pub address: SocketAddress,
    pub hostname: String,
    pub path: PathRule,
    pub method: Option<String>,
    pub position: RulePosition,
    pub tags: Option<Tags>,
}

/// What a [`HttpFrontend`] holds, as mathematical values.
#[verifier::ext_equal]
pub struct HttpFrontendModel {
    pub route: RouteModel,
    pub address: SocketAddress,
    pub hostname: Seq<char>,
    pub path: PathRuleModel,
    pub method: Option<Seq<char>>,
    pub position: RulePosition,
    pub tags: Option<Seq<(Seq<char>, Seq<char>)>>,
}

impl DeepView for HttpFrontend {
    type V = HttpFrontendModel;

    open spec fn deep_view(&self) -> HttpFrontendModel {
        HttpFrontendModel {
            route: self.route.deep_view(),
            address: self.address,
            hostname: self.hostname@,
            path: self.path.deep_view(),
            method: self.method.deep_view(),
            position: self.position,
            tags: self.tags.deep_view(),
        }
    }
}

impl Clone for HttpFrontend {
    fn clone(&self) -> (r: Self)
        ensures
            r.deep_view() == self.deep_view(),
    {
        let r = HttpFrontend {
            route: self.route.clone(),
            address: self.address,
            hostname: self.hostname.clone(),
            path: self.path.clone(),
            method: self.method.clone(),
            position: self.position,
            tags: self.tags.clone(),
        };
        proof {
            assert(r.tags.deep_view() =~= self.tags.deep_view());
        }
        r
    }
}

/// A rule that sends the connections to an address to a cluster.
#[derive(Debug, PartialEq, Eq)]
pub struct TcpFrontend {
    pub cluster_id: String,
    pub address: SocketAddress,
    pub tags: Option<Tags>,
}

/// What a [`TcpFrontend`] holds, as mathematical values.
#[verifier::ext_equal]
pub struct TcpFrontendModel {
    pub cluster_id: Seq<char>,
    pub address: SocketAddress,
    pub tags: Option<Seq<(Seq<char>, Seq<char>)>>,
}

impl DeepView for TcpFrontend {
    type V = TcpFrontendModel;

    open spec fn deep_view(&self) -> TcpFrontendModel {
        TcpFrontendModel {
            cluster_id: self.cluster_id@,
            address: self.address,
            tags: self.tags.deep_view(),
        }
    }
}

impl Clone for TcpFrontend {
    fn clone(&self) -> (r: Self)
        ensures
            r.deep_view() == self.deep_view(),
    {
        let r = TcpFrontend {
            cluster_id: self.cluster_id.clone(),
            address: self.address,
            tags: self.tags.clone(),
        };
        proof {
            assert(r.tags.deep_view() =~= self.tags.deep_view());
        }
        r
    }
}

/// A server of a cluster.
#[derive(Debug, PartialEq, Eq)]
pub struct Backend {
    pub cluster_id: String,
    pub backend_id: String,
    pub address: SocketAddress,
    pub load_balancing_parameters: Option<LoadBalancingParams>,
    pub sticky_id: Option<String>,
    pub backup: Option<bool>,
}

/// What a [`Backend`] holds, as mathematical values.
#[verifier::ext_equal]
pub struct BackendModel {
    pub cluster_id: Seq<char>,
    pub backend_id: Seq<char>,
    pub address: SocketAddress,
    pub load_balancing_parameters: Option<LoadBalancingParams>,
    pub sticky_id: Option<Seq<char>>,
    pub backup: Option<bool>,
}

impl DeepView for Backend {
    type V = BackendModel;

    open spec fn deep_view(&self) -> BackendModel {
        BackendModel {
            cluster_id: self.cluster_id@,
            backend_id: self.backend_id@,
            address: self.address,
            load_balancing_parameters: self.load_balancing_parameters,
            sticky_id: self.sticky_id.deep_view(),
            backup: self.backup,
        }
    }
}

impl Clone for Backend {
    fn clone(&self) -> (r: Self)
        ensures
            r.deep_view() == self.deep_view(),
    {
        Backend {
            cluster_id: self.cluster_id.clone(),
            backend_id: self.backend_id.clone(),
            address: self.address,
            load_balancing_parameters: self.load_balancing_parameters,
            sticky_id: self.sticky_id.clone(),
            backup: self.backup,
        }
    }
}

/// A certificate with its chain and its private key, in PEM form.
#[derive(Debug, PartialEq, Eq)]
pub struct CertificateAndKey {
    pub certificate: String,
    pub certificate_chain: Vec<String>,
    pub key: String,
    pub versions: Vec<TlsVersion>,
}

/// What a [`CertificateAndKey`] holds, as mathematical values.
#[verifier::ext_equal]
pub struct CertificateAndKeyModel {
    pub certificate: Seq<char>,
    pub certificate_chain: Seq<Seq<char>>,
    pub key: Seq<char>,
    pub versions: Seq<TlsVersion>,
}

impl DeepView for CertificateAndKey {
    type V = CertificateAndKeyModel;

    open spec fn deep_view(&self) -> CertificateAndKeyModel {
        CertificateAndKeyModel {
            certificate: self.certificate@,
            certificate_chain: self.certificate_chain.deep_view(),
            key: self.key@,
            versions: self.versions.deep_view(),
        }
    }
}

impl Clone for CertificateAndKey {
    fn clone(&self) -> (r: Self)
        ensures
            r.deep_view() == self.deep_view(),
    {
        let r = CertificateAndKey {
            certificate: self.certificate.clone(),
            certificate_chain: self.certificate_chain.clone(),
            key: self.key.clone(),
            versions: self.versions.clone(),
        };
        proof {
            assert(r.certificate_chain.deep_view() =~= self.certificate_chain.deep_view());
            assert(r.versions.deep_view() =~= self.versions.deep_view());
        }
        r
    }
}

/// A certificate for the listener on an address.
#[derive(Debug, PartialEq, Eq)]
pub struct AddCertificate {
    pub address: SocketAddress,
    pub certificate: CertificateAndKey,
    pub names: Vec<String>,
    pub expired_at: Option<i64>,
}

/// What a [`AddCertificate`] holds, as mathematical values.
#[verifier::ext_equal]
pub struct AddCertificateModel {
    pub address: SocketAddress,
    pub certificate: CertificateAndKeyModel,
    pub names: Seq<Seq<char>>,
    pub expired_at: Option<i64>,
}

impl DeepView for AddCertificate {
    type V = AddCertificateModel;

    open spec fn deep_view(&self) -> AddCertificateModel {
        AddCertificateModel {
            address: self.address,
            certificate: self.certificate.deep_view(),
            names: self.names.deep_view(),
            expired_at: self.expired_at,
        }
    }
}

impl Clone for AddCertificate {
    fn clone(&self) -> (r: Self)
        ensures
            r.deep_view() == self.deep_view(),
    {
        let r = AddCertificate {
            address: self.address,
            certificate: self.certificate.clone(),
            names: self.names.clone(),
            expired_at: self.expired_at,
        };
        proof {
            assert(r.names.deep_view() =~= self.names.deep_view());
        }
        r
    }
}

/// The order to start to listen.
#[derive(Debug, PartialEq, Eq)]
pub struct ActivateListener {
    pub address: SocketAddress,
    pub proxy: ListenerType,
    pub from_scm: bool,
}

/// What a [`ActivateListener`] holds, as mathematical values.
#[verifier::ext_equal]
pub struct ActivateListenerModel {
    pub address: SocketAddress,
    pub proxy: ListenerType,
    pub from_scm: bool,
}

impl DeepView for ActivateListener {
    type V = ActivateListenerModel;

    open spec fn deep_view(&self) -> ActivateListenerModel {
        ActivateListenerModel {
            address: self.address,
            proxy: self.proxy,
            from_scm: self.from_scm,
        }
    }
}

impl Clone for ActivateListener {
    fn clone(&self) -> (r: Self)
        ensures
            r.deep_view() == self.deep_view(),
    {
        ActivateListener {
            address: self.address,
            proxy: self.proxy,
            from_scm: self.from_scm,
        }
    }
}

/// The order to remove a backend.
#[derive(Debug, PartialEq, Eq)]
pub struct RemoveBackend {
    pub cluster_id: String,
    pub backend_id: String,
    pub address: SocketAddress,
}

/// What a [`RemoveBackend`] holds, as mathematical values.
#[verifier::ext_equal]
pub struct RemoveBackendModel {
    pub cluster_id: Seq<char>,
    pub backend_id: Seq<char>,
    pub address: SocketAddress,
}

impl DeepView for RemoveBackend {
    type V = RemoveBackendModel;

    open spec fn deep_view(&self) -> RemoveBackendModel {
        RemoveBackendModel {
            cluster_id: self.cluster_id@,
            backend_id: self.backend_id@,
            address: self.address,
        }
    }
}

impl Clone for RemoveBackend {
    fn clone(&self) -> (r: Self)
        ensures
            r.deep_view() == self.deep_view(),
    {
        RemoveBackend {
            cluster_id: self.cluster_id.clone(),
            backend_id: self.backend_id.clone(),
            address: self.address,
        }
    }
}

/// Which metrics are asked for.
#[derive(Debug, PartialEq, Eq)]
pub struct QueryMetricsOptions {
    /// lists the names of the available metrics instead of their values
    pub list: bool,
    pub cluster_ids: Vec<String>,
    pub backend_ids: Vec<String>,
    pub metric_names: Vec<String>,
}

/// What a [`QueryMetricsOptions`] holds, as mathematical values.
#[verifier::ext_equal]
pub struct QueryMetricsOptionsModel {
    pub list: bool,
    pub cluster_ids: Seq<Seq<char>>,
    pub backend_ids: Seq<Seq<char>>,
    pub metric_names: Seq<Seq<char>>,
}

impl DeepView for QueryMetricsOptions {
    type V = QueryMetricsOptionsModel;

    open spec fn deep_view(&self) -> QueryMetricsOptionsModel {
        QueryMetricsOptionsModel {
            list: self.list,
            cluster_ids: self.cluster_ids.deep_view(),
            backend_ids: self.backend_ids.deep_view(),
            metric_names: self.metric_names.deep_view(),
        }
    }
}

impl Clone for QueryMetricsOptions {
    fn clone(&self) -> (r: Self)
        ensures
            r.deep_view() == self.deep_view(),
    {
        let r = QueryMetricsOptions {
            list: self.list,
            cluster_ids: self.cluster_ids.clone(),
            backend_ids: self.backend_ids.clone(),
            metric_names: self.metric_names.clone(),
        };
        proof {
            assert(r.cluster_ids.deep_view() =~= self.cluster_ids.deep_view());
            assert(r.backend_ids.deep_view() =~= self.backend_ids.deep_view());
            assert(r.metric_names.deep_view() =~= self.metric_names.deep_view());
        }
        r
    }
}

/// What to do with the collection of metrics.
#[derive(Debug, Clone, Copy, PartialEq, Eq, Structural, Hash)]
pub enum MetricsConfiguration {
    Enabled,
    Disabled,
    Clear,
}

impl DeepView for MetricsConfiguration {
    type V = MetricsConfiguration;

    open spec fn deep_view(&self) -> MetricsConfiguration {
        *self
    }
}

/// An order to a worker.
#[derive(Debug, PartialEq, Eq)]
pub enum ProxyRequestOrder {
    AddCluster(Cluster),
    AddHttpFrontend(HttpFrontend),
    RemoveHttpFrontend(HttpFrontend),
    AddHttpsFrontend(HttpFrontend),
    RemoveHttpsFrontend(HttpFrontend),
    AddCertificate(AddCertificate),
    AddTcpFrontend(TcpFrontend),
    RemoveTcpFrontend(TcpFrontend),
    AddBackend(Backend),
    RemoveBackend(RemoveBackend),
    AddHttpListener(HttpListenerConfig),
    AddHttpsListener(HttpsListenerConfig),
    AddTcpListener(TcpListenerConfig),
    ActivateListener(ActivateListener),
    ConfigureMetrics(MetricsConfiguration),
    QueryMetrics(QueryMetricsOptions),
    QueryAllCertificates,
    QueryCertificateByDomain(String),
    QueryCertificateByFingerprint(Vec<u8>),
    QueryClusterByDomain { hostname: String, path: Option<String> },
    QueryClusterById { cluster_id: String },
    QueryClustersHashes,
    Logging(String),
    ReturnListenSockets,
    Status,
    SoftStop,
    HardStop,
    /// an order that only the workers look into, as it came
    Other(String),
}

/// What a [`ProxyRequestOrder`] holds, as mathematical values.
#[verifier::ext_equal]
pub enum ProxyRequestOrderModel {
    AddCluster(ClusterModel),
    AddHttpFrontend(HttpFrontendModel),
    RemoveHttpFrontend(HttpFrontendModel),
    AddHttpsFrontend(HttpFrontendModel),
    RemoveHttpsFrontend(HttpFrontendModel),
    AddCertificate(AddCertificateModel),
    AddTcpFrontend(TcpFrontendModel),
    RemoveTcpFrontend(TcpFrontendModel),
    AddBackend(BackendModel),
    RemoveBackend(RemoveBackendModel),
    AddHttpListener(HttpListenerConfigModel),
    AddHttpsListener(HttpsListenerConfigModel),
    AddTcpListener(TcpListenerConfigModel),
    ActivateListener(ActivateListenerModel),
    ConfigureMetrics(MetricsConfiguration),
    QueryMetrics(QueryMetricsOptionsModel),
    QueryAllCertificates,
    QueryCertificateByDomain(Seq<char>),
    QueryCertificateByFingerprint(Seq<u8>),
    QueryClusterByDomain { hostname: Seq<char>, path: Option<Seq<char>> },
    QueryClusterById { cluster_id: Seq<char> },
    QueryClustersHashes,
    Logging(Seq<char>),
    ReturnListenSockets,
    Status,
    SoftStop,
    HardStop,
    Other(Seq<char>),
}

impl DeepView for ProxyRequestOrder {
    type V = ProxyRequestOrderModel;

    open spec fn deep_view(&self) -> ProxyRequestOrderModel {
        match self {
            ProxyRequestOrder::AddCluster(x) => ProxyRequestOrderModel::AddCluster(x.deep_view()),
            ProxyRequestOrder::AddHttpFrontend(x) => ProxyRequestOrderModel::AddHttpFrontend(x.deep_view()),
            ProxyRequestOrder::RemoveHttpFrontend(x) => ProxyRequestOrderModel::RemoveHttpFrontend(x.deep_view()),
            ProxyRequestOrder::AddHttpsFrontend(x) => ProxyRequestOrderModel::AddHttpsFrontend(x.deep_view()),
            ProxyRequestOrder::RemoveHttpsFrontend(x) => ProxyRequestOrderModel::RemoveHttpsFrontend(x.deep_view()),
            ProxyRequestOrder::AddCertificate(x) => ProxyRequestOrderModel::AddCertificate(x.deep_view()),
            ProxyRequestOrder::AddTcpFrontend(x) => ProxyRequestOrderModel::AddTcpFrontend(x.deep_view()),
            ProxyRequestOrder::RemoveTcpFrontend(x) => ProxyRequestOrderModel::RemoveTcpFrontend(x.deep_view()),
            ProxyRequestOrder::AddBackend(x) => ProxyRequestOrderModel::AddBackend(x.deep_view()),
            ProxyRequestOrder::RemoveBackend(x) => ProxyRequestOrderModel::RemoveBackend(x.deep_view()),
            ProxyRequestOrder::AddHttpListener(x) => ProxyRequestOrderModel::AddHttpListener(x.deep_view()),
            ProxyRequestOrder::AddHttpsListener(x) => ProxyRequestOrderModel::AddHttpsListener(x.deep_view()),
            ProxyRequestOrder::AddTcpListener(x) => ProxyRequestOrderModel::AddTcpListener(x.deep_view()),
            ProxyRequestOrder::ActivateListener(x) => ProxyRequestOrderModel::ActivateListener(x.deep_view()),
            ProxyRequestOrder::ConfigureMetrics(x) => ProxyRequestOrderModel::ConfigureMetrics(*x),
            ProxyRequestOrder::QueryMetrics(x) => ProxyRequestOrderModel::QueryMetrics(x.deep_view()),
            ProxyRequestOrder::QueryAllCertificates => ProxyRequestOrderModel::QueryAllCertificates,
            ProxyRequestOrder::QueryCertificateByDomain(x) => ProxyRequestOrderModel::QueryCertificateByDomain(x@),
            ProxyRequestOrder::QueryCertificateByFingerprint(x) => ProxyRequestOrderModel::QueryCertificateByFingerprint(x.deep_view()),
            ProxyRequestOrder::QueryClusterByDomain { hostname, path } => ProxyRequestOrderModel::QueryClusterByDomain { hostname: hostname@, path: path.deep_view() },
            ProxyRequestOrder::QueryClusterById { cluster_id } => ProxyRequestOrderModel::QueryClusterById { cluster_id: cluster_id@ },
            ProxyRequestOrder::QueryClustersHashes => ProxyRequestOrderModel::QueryClustersHashes,
            ProxyRequestOrder::Logging(x) => ProxyRequestOrderModel::Logging(x@),
            ProxyRequestOrder::ReturnListenSockets => ProxyRequestOrderModel::ReturnListenSockets,
            ProxyRequestOrder::Status => ProxyRequestOrderModel::Status,
            ProxyRequestOrder::SoftStop => ProxyRequestOrderModel::SoftStop,
            ProxyRequestOrder::HardStop => ProxyRequestOrderModel::HardStop,
            ProxyRequestOrder::Other(x) => ProxyRequestOrderModel::Other(x@),
        }
    }
}

impl Clone for ProxyRequestOrder {
    fn clone(&self) -> (r: Self)
        ensures
            r.deep_view() == self.deep_view(),
    {
        match self {
            ProxyRequestOrder::AddCluster(x) => ProxyRequestOrder::AddCluster(x.clone()),
            ProxyRequestOrder::AddHttpFrontend(x) => ProxyRequestOrder::AddHttpFrontend(x.clone()),
            ProxyRequestOrder::RemoveHttpFrontend(x) => ProxyRequestOrder::RemoveHttpFrontend(x.clone()),
            ProxyRequestOrder::AddHttpsFrontend(x) => ProxyRequestOrder::AddHttpsFrontend(x.clone()),
            ProxyRequestOrder::RemoveHttpsFrontend(x) => ProxyRequestOrder::RemoveHttpsFrontend(x.clone()),
            ProxyRequestOrder::AddCertificate(x) => ProxyRequestOrder::AddCertificate(x.clone()),
            ProxyRequestOrder::AddTcpFrontend(x) => ProxyRequestOrder::AddTcpFrontend(x.clone()),
            ProxyRequestOrder::RemoveTcpFrontend(x) => ProxyRequestOrder::RemoveTcpFrontend(x.clone()),
            ProxyRequestOrder::AddBackend(x) => ProxyRequestOrder::AddBackend(x.clone()),
            ProxyRequestOrder::RemoveBackend(x) => ProxyRequestOrder::RemoveBackend(x.clone()),
            ProxyRequestOrder::AddHttpListener(x) => ProxyRequestOrder::AddHttpListener(x.clone()),
            ProxyRequestOrder::AddHttpsListener(x) => ProxyRequestOrder::AddHttpsListener(x.clone()),
            ProxyRequestOrder::AddTcpListener(x) => ProxyRequestOrder::AddTcpListener(x.clone()),
            ProxyRequestOrder::ActivateListener(x) => ProxyRequestOrder::ActivateListener(x.clone()),
            ProxyRequestOrder::ConfigureMetrics(x) => ProxyRequestOrder::ConfigureMetrics(*x),
            ProxyRequestOrder::QueryMetrics(x) => ProxyRequestOrder::QueryMetrics(x.clone()),
            ProxyRequestOrder::QueryAllCertificates => ProxyRequestOrder::QueryAllCertificates,
            ProxyRequestOrder::QueryCertificateByDomain(x) => ProxyRequestOrder::QueryCertificateByDomain(x.clone()),
            ProxyRequestOrder::QueryCertificateByFingerprint(x) => ProxyRequestOrder::QueryCertificateByFingerprint(x.clone()),
            ProxyRequestOrder::QueryClusterByDomain { hostname, path } => ProxyRequestOrder::QueryClusterByDomain { hostname: hostname.clone(), path: path.clone() },
            ProxyRequestOrder::QueryClusterById { cluster_id } => ProxyRequestOrder::QueryClusterById { cluster_id: cluster_id.clone() },
            ProxyRequestOrder::QueryClustersHashes => ProxyRequestOrder::QueryClustersHashes,
            ProxyRequestOrder::Logging(x) => ProxyRequestOrder::Logging(x.clone()),
            ProxyRequestOrder::ReturnListenSockets => ProxyRequestOrder::ReturnListenSockets,
            ProxyRequestOrder::Status => ProxyRequestOrder::Status,
            ProxyRequestOrder::SoftStop => ProxyRequestOrder::SoftStop,
            ProxyRequestOrder::HardStop => ProxyRequestOrder::HardStop,
            ProxyRequestOrder::Other(x) => ProxyRequestOrder::Other(x.clone()),
        }
    }
}

} // verus!
