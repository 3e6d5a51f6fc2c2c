//! The orders that set up what a configuration describes.
use vstd::prelude::*;
use vstd::string::*;

use crate::proxy::{
    ActivateListener, AddCertificate, AddCertificateModel, Backend, BackendModel,
    CertificateAndKey, CertificateAndKeyModel, Cluster, ClusterModel, HttpFrontend,
    HttpFrontendModel, LoadBalancingParams, ProxyRequestOrder, ProxyRequestOrderModel, Route,
    RouteModel, TcpFrontend, TcpFrontendModel, TlsVersion,
};
use crate::text::decimal_text;

use super::types::{
    BackendConfig, BackendConfigModel, ClusterConfig, ClusterConfigModel, HttpClusterConfig,
    HttpClusterConfigModel, HttpFrontendConfig, HttpFrontendConfigModel, TcpClusterConfig,
    TcpClusterConfigModel, TcpFrontendConfigModel,
};

verus! {

impl HttpFrontendConfigModel {
    /// The rule that sends matching requests to the cluster.
    pub open spec fn rule(self, cluster_id: Seq<char>) -> HttpFrontendModel {
        HttpFrontendModel {
            route: RouteModel::ClusterId(cluster_id),
            address: self.address,
            hostname: self.hostname,
            path: self.path,
            method: self.method,
            position: self.position,
            tags: self.tags,
        }
    }

    /// The certificate of the frontend, for its hostname.
    pub open spec fn certificate_order(self) -> AddCertificateModel {
        AddCertificateModel {
            address: self.address,
            certificate: CertificateAndKeyModel {
                certificate: self.certificate->0,
                certificate_chain: match self.certificate_chain {
                    Some(chain) => chain,
                    None => Seq::empty(),
                },
                key: self.key->0,
                versions: self.tls_versions,
            },
            names: seq![self.hostname],
            expired_at: None,
        }
    }

    /// With a key and a certificate the frontend is an HTTPS one, which comes after its
    /// certificate; without one of the two it is an HTTP one.
    pub open spec fn orders(self, cluster_id: Seq<char>) -> Seq<ProxyRequestOrderModel> {
        if self.key is Some && self.certificate is Some {
            seq![
                ProxyRequestOrderModel::AddCertificate(self.certificate_order()),
                ProxyRequestOrderModel::AddHttpsFrontend(self.rule(cluster_id)),
            ]
        } else {
            seq![ProxyRequestOrderModel::AddHttpFrontend(self.rule(cluster_id))]
        }
    }
}

impl HttpFrontendConfig {
    fn to_rule(&self, cluster_id: &str) -> (r: HttpFrontend)
        ensures
            r.deep_view() == self.deep_view().rule(cluster_id@),
    {
        HttpFrontend {
            route: Route::ClusterId(cluster_id.to_owned()),
            address: self.address,
            hostname: self.hostname.clone(),
            path: self.path.clone(),
            method: self.method.clone(),
            position: self.position,
            tags: self.tags.clone(),
        }
    }

    /// The orders that set up the frontend.
    pub fn generate_orders(&self, cluster_id: &str) -> (r: Vec<ProxyRequestOrder>)
        ensures
            r.deep_view() == self.deep_view().orders(cluster_id@),
    {
        let mut v: Vec<ProxyRequestOrder> = Vec::new();
        match (&self.key, &self.certificate) {
            (Some(key), Some(certificate)) => {
                let certificate_chain: Vec<String> = match &self.certificate_chain {
                    Some(chain) => chain.clone(),
                    None => Vec::new(),
                };
                let mut names: Vec<String> = Vec::new();
                names.push(self.hostname.clone());
                let versions: Vec<TlsVersion> = self.tls_versions.clone();
                let order = AddCertificate {
                    address: self.address,
                    certificate: CertificateAndKey {
                        certificate: certificate.clone(),
                        certificate_chain,
                        key: key.clone(),
                        versions,
                    },
                    names,
                    expired_at: None,
                };
                proof {
                    let wanted = self.deep_view().certificate_order();
                    assert(order.certificate.certificate_chain.deep_view()
                        =~= wanted.certificate.certificate_chain);
                    assert(order.certificate.versions.deep_view() =~= wanted.certificate.versions);
                    assert(order.names.deep_view() =~= wanted.names);
                }
                v.push(ProxyRequestOrder::AddCertificate(order));
                v.push(ProxyRequestOrder::AddHttpsFrontend(self.to_rule(cluster_id)));
            },
            _ => {
                v.push(ProxyRequestOrder::AddHttpFrontend(self.to_rule(cluster_id)));
            },
        }
        proof {
            assert(v.deep_view() =~= self.deep_view().orders(cluster_id@));
        }
        v
    }
}

impl BackendConfigModel {
    /// The backend in place `index` of its cluster. One without an identifier is identified by its
    /// cluster, its place and its address, one without a weight weighs 100.
    pub open spec fn backend(self, cluster_id: Seq<char>, index: int) -> BackendModel {
        BackendModel {
            cluster_id,
            backend_id: match self.backend_id {
                Some(id) => id,
                None => cluster_id + "-"@ + crate::text::decimal(index as nat) + "-"@
                    + self.address.text(),
            },
            address: self.address,
            load_balancing_parameters: Some(
                LoadBalancingParams {
                    weight: match self.weight {
                        Some(weight) => weight,
                        None => 100,
                    },
                },
            ),
            sticky_id: self.sticky_id,
            backup: self.backup,
        }
    }
}

impl BackendConfig {
    fn to_backend(&self, cluster_id: &str, index: usize) -> (r: Backend)
        ensures
            r.deep_view() == self.deep_view().backend(cluster_id@, index as int),
    {
        let backend_id = match &self.backend_id {
            Some(id) => id.clone(),
            None => {
                let mut id = cluster_id.to_owned();
                id.append("-");
                id.append(decimal_text(index as u64).as_str());
                id.append("-");
                id.append(self.address.to_text().as_str());
                id
            },
        };
        Backend {
            cluster_id: cluster_id.to_owned(),
            backend_id,
            address: self.address,
            load_balancing_parameters: Some(
                LoadBalancingParams { weight: self.weight.unwrap_or(100) },
            ),
            sticky_id: self.sticky_id.clone(),
            backup: self.backup,
        }
    }
}

/// The orders of the frontends one after the other.
pub open spec fn http_frontend_orders(
    frontends: Seq<HttpFrontendConfigModel>,
    cluster_id: Seq<char>,
) -> Seq<ProxyRequestOrderModel>
    decreases frontends.len(),
{
    if frontends.len() == 0 {
        Seq::empty()
    } else {
        http_frontend_orders(frontends.drop_last(), cluster_id) + frontends.last().orders(
            cluster_id,
        )
    }
}

/// One order for each of the TCP frontends.
pub open spec fn tcp_frontend_orders(
    frontends: Seq<TcpFrontendConfigModel>,
    cluster_id: Seq<char>,
) -> Seq<ProxyRequestOrderModel> {
    Seq::new(
        frontends.len(),
        |i: int|
            ProxyRequestOrderModel::AddTcpFrontend(
                TcpFrontendModel {
                    cluster_id,
                    address: frontends[i].address,
                    tags: frontends[i].tags,
                },
            ),
    )
}

/// One order for each of the backends.
pub open spec fn backend_orders(
    backends: Seq<BackendConfigModel>,
    cluster_id: Seq<char>,
) -> Seq<ProxyRequestOrderModel> {
    Seq::new(
        backends.len(),
        |i: int| ProxyRequestOrderModel::AddBackend(backends[i].backend(cluster_id, i)),
    )
}

/// Appends the orders for the backends.
fn push_backends(v: &mut Vec<ProxyRequestOrder>, backends: &Vec<BackendConfig>, cluster_id: &str)
    ensures
        final(v).deep_view() == old(v).deep_view() + backend_orders(
            backends.deep_view(),
            cluster_id@,
        ),
{
    let mut i: usize = 0;
    let ghost start = v.deep_view();
    let ghost wanted = backend_orders(backends.deep_view(), cluster_id@);
    proof {
        assert(start + wanted.take(0) =~= start);
    }
    while i < backends.len()
        invariant
            i <= backends.len(),
            wanted == backend_orders(backends.deep_view(), cluster_id@),
            v.deep_view() == start + wanted.take(i as int),
        decreases backends.len() - i,
    {
        let ghost before = v.deep_view();
        let order = ProxyRequestOrder::AddBackend(backends[i].to_backend(cluster_id, i));
        v.push(order);
        proof {
            assert(v.deep_view() =~= before.push(order.deep_view()));
            assert(order.deep_view() == wanted[i as int]);
            assert(v.deep_view() =~= start + wanted.take(i + 1));
        }
        i = i + 1;
    }
    proof {
        assert(wanted.take(wanted.len() as int) =~= wanted);
    }
}

impl HttpClusterConfigModel {
    /// The cluster itself, then its frontends, then its backends.
    pub open spec fn orders(self) -> Seq<ProxyRequestOrderModel> {
        seq![
            ProxyRequestOrderModel::AddCluster(
                ClusterModel {
                    cluster_id: self.cluster_id,
                    sticky_session: self.sticky_session,
                    https_redirect: self.https_redirect,
                    proxy_protocol: None,
                    load_balancing: self.load_balancing,
                    answer_503: self.answer_503,
                    load_metric: self.load_metric,
                },
            ),
        ] + http_frontend_orders(self.frontends, self.cluster_id) + backend_orders(
            self.backends,
            self.cluster_id,
        )
    }
}

impl HttpClusterConfig {
    /// The orders that set up the cluster.
    pub fn generate_orders(&self) -> (r: Vec<ProxyRequestOrder>)
        ensures
            r.deep_view() == self.deep_view().orders(),
    {
        let cluster = ProxyRequestOrder::AddCluster(
            Cluster {
                cluster_id: self.cluster_id.clone(),
                sticky_session: self.sticky_session,
                https_redirect: self.https_redirect,
                proxy_protocol: None,
                load_balancing: self.load_balancing,
                answer_503: self.answer_503.clone(),
                load_metric: self.load_metric,
            },
        );
        let mut v: Vec<ProxyRequestOrder> = Vec::new();
        v.push(cluster);
        let ghost head = seq![cluster.deep_view()];
        let ghost frontends = self.frontends.deep_view();
        let mut i: usize = 0;
        proof {
            assert(frontends.take(0) =~= Seq::empty());
            assert(v.deep_view() =~= head + http_frontend_orders(
                frontends.take(0),
                self.cluster_id@,
            ));
        }
        while i < self.frontends.len()
            invariant
                i <= self.frontends.len(),
                frontends == self.frontends.deep_view(),
                v.deep_view() == head + http_frontend_orders(
                    frontends.take(i as int),
                    self.cluster_id@,
                ),
            decreases self.frontends.len() - i,
        {
            let ghost before = v.deep_view();
            let mut orders = self.frontends[i].generate_orders(self.cluster_id.as_str());
            let ghost added = orders.deep_view();
            v.append(&mut orders);
            proof {
                assert(v.deep_view() =~= before + added);
                assert(frontends.take(i + 1).drop_last() =~= frontends.take(i as int));
                assert(frontends.take(i + 1).last() == self.frontends[i as int].deep_view());
                assert(v.deep_view() =~= head + http_frontend_orders(
                    frontends.take(i + 1),
                    self.cluster_id@,
                ));
            }
            i = i + 1;
        }
        proof {
            assert(frontends.take(frontends.len() as int) =~= frontends);
        }
        push_backends(&mut v, &self.backends, self.cluster_id.as_str());
        v
    }
}

impl TcpClusterConfigModel {
    /// The cluster itself, then its frontends, then its backends.
    pub open spec fn orders(self) -> Seq<ProxyRequestOrderModel> {
        seq![
            ProxyRequestOrderModel::AddCluster(
                ClusterModel {
                    cluster_id: self.cluster_id,
                    sticky_session: false,
                    https_redirect: false,
                    proxy_protocol: self.proxy_protocol,
                    load_balancing: self.load_balancing,
                    answer_503: None,
                    load_metric: self.load_metric,
                },
            ),
        ] + tcp_frontend_orders(self.frontends, self.cluster_id) + backend_orders(
            self.backends,
            self.cluster_id,
        )
    }
}

impl TcpClusterConfig {
    /// The orders that set up the cluster.
    pub fn generate_orders(&self) -> (r: Vec<ProxyRequestOrder>)
        ensures
            r.deep_view() == self.deep_view().orders(),
    {
        let cluster = ProxyRequestOrder::AddCluster(
            Cluster {
                cluster_id: self.cluster_id.clone(),
                sticky_session: false,
                https_redirect: false,
                proxy_protocol: self.proxy_protocol,
                load_balancing: self.load_balancing,
                answer_503: None,
                load_metric: self.load_metric,
            },
        );
        let mut v: Vec<ProxyRequestOrder> = Vec::new();
        v.push(cluster);
        let ghost head = seq![cluster.deep_view()];
        let ghost wanted = tcp_frontend_orders(self.frontends.deep_view(), self.cluster_id@);
        let mut i: usize = 0;
        proof {
            assert(v.deep_view() =~= head + wanted.take(0));
        }
        while i < self.frontends.len()
            invariant
                i <= self.frontends.len(),
                wanted == tcp_frontend_orders(self.frontends.deep_view(), self.cluster_id@),
                v.deep_view() == head + wanted.take(i as int),
            decreases self.frontends.len() - i,
        {
            let ghost before = v.deep_view();
            let frontend = &self.frontends[i];
            let order = ProxyRequestOrder::AddTcpFrontend(
                TcpFrontend {
                    cluster_id: self.cluster_id.clone(),
                    address: frontend.address,
                    tags: frontend.tags.clone(),
                },
            );
            v.push(order);
            proof {
                assert(v.deep_view() =~= before.push(order.deep_view()));
                assert(order.deep_view() == wanted[i as int]);
                assert(v.deep_view() =~= head + wanted.take(i + 1));
            }
            i = i + 1;
        }
        proof {
            assert(wanted.take(wanted.len() as int) =~= wanted);
        }
        push_backends(&mut v, &self.backends, self.cluster_id.as_str());
        v
    }
}

impl ClusterConfigModel {
    /// The orders that set up the cluster.
    pub open spec fn orders(self) -> Seq<ProxyRequestOrderModel> {
        match self {
            ClusterConfigModel::Http(http) => http.orders(),
            ClusterConfigModel::Tcp(tcp) => tcp.orders(),
        }
    }
}

impl ClusterConfig {
    /// The orders that set up the cluster.
    pub fn generate_orders(&self) -> (r: Vec<ProxyRequestOrder>)
        ensures
            r.deep_view() == self.deep_view().orders(),
    {
        match self {
            ClusterConfig::Http(http) => http.generate_orders(),
            ClusterConfig::Tcp(tcp) => tcp.generate_orders(),
        }
    }
}

/// The orders of HTTP frontends start no listener.
proof fn lemma_frontends_start_nothing(
    frontends: Seq<HttpFrontendConfigModel>,
    cluster_id: Seq<char>,
    k: int,
)
    requires
        0 <= k < http_frontend_orders(frontends, cluster_id).len(),
    ensures
        http_frontend_orders(frontends, cluster_id)[k] !is ActivateListener,
    decreases frontends.len(),
{
    let before = http_frontend_orders(frontends.drop_last(), cluster_id);
    if k < before.len() {
        lemma_frontends_start_nothing(frontends.drop_last(), cluster_id, k);
    }
}

impl ClusterConfigModel {
    /// The orders of a cluster start no listener.
    pub proof fn lemma_orders_start_nothing(self, k: int)
        requires
            0 <= k < self.orders().len(),
        ensures
            self.orders()[k] !is ActivateListener,
    {
        match self {
            ClusterConfigModel::Http(http) => {
                let frontends = http_frontend_orders(http.frontends, http.cluster_id);
                if 1 <= k <= frontends.len() {
                    lemma_frontends_start_nothing(http.frontends, http.cluster_id, k - 1);
                }
            },
            ClusterConfigModel::Tcp(tcp) => {},
        }
    }
}

} // verus!
