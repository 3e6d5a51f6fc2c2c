//! What the messages of a configuration set up in a worker.
use vstd::prelude::*;

use crate::command::types::{CommandRequestModel, CommandRequestOrderModel};
use crate::proxy::{HttpFrontendModel, ListenerType, ProxyRequestOrderModel, RouteModel};

use super::types::{
    BackendConfigModel, ClusterConfigModel, ConfigModel, HttpFrontendConfigModel,
    TcpClusterConfigModel,
};

verus! {

/// The message in place `p` brings the order to every worker.
pub open spec fn brings(
    messages: Seq<CommandRequestModel>,
    p: int,
    order: ProxyRequestOrderModel,
) -> bool {
    &&& 0 <= p < messages.len()
    &&& messages[p].order == CommandRequestOrderModel::Proxy(order)
    &&& messages[p].worker_id is None
}

/// One of the first `end` messages sets up a listener of this type at this address.
pub open spec fn listener_before(
    messages: Seq<CommandRequestModel>,
    end: int,
    address: crate::address::SocketAddress,
    proxy: ListenerType,
) -> bool {
    exists|p: int|
        0 <= p < end && p < messages.len() && match (#[trigger] messages[p]).order {
            CommandRequestOrderModel::Proxy(ProxyRequestOrderModel::AddHttpListener(listener)) =>
            proxy == ListenerType::HTTP && listener.address == address,
            CommandRequestOrderModel::Proxy(ProxyRequestOrderModel::AddHttpsListener(listener)) =>
            proxy == ListenerType::HTTPS && listener.address == address,
            CommandRequestOrderModel::Proxy(ProxyRequestOrderModel::AddTcpListener(listener)) =>
            proxy == ListenerType::TCP && listener.address == address,
            _ => false,
        }
}

/// One of the messages starts a listener of this type at this address.
pub open spec fn is_started(
    messages: Seq<CommandRequestModel>,
    address: crate::address::SocketAddress,
    proxy: ListenerType,
) -> bool {
    exists|p: int|
        0 <= p < messages.len() && match (#[trigger] messages[p]).order {
            CommandRequestOrderModel::Proxy(ProxyRequestOrderModel::ActivateListener(start)) =>
            start.address == address && start.proxy == proxy && !start.from_scm,
            _ => false,
        }
}

/// The messages in front of those for the clusters, and those with them.
proof fn lemma_places(config: ConfigModel, p: int)
    requires
        0 <= p < config.messages().len(),
    ensures
        config.messages()[p].order == CommandRequestOrderModel::Proxy(config.orders()[p]),
        config.messages()[p].worker_id is None,
        ({
            let (h, s, t) = (
                config.http_listeners.len(),
                config.https_listeners.len(),
                config.tcp_listeners.len(),
            );
            let all = h + s + t;
            let middle = super::messages::cluster_orders(config.clusters);
            let order = config.orders()[p];
            &&& config.messages().len() == all + middle.len() + (if config.activate_listeners {
                all
            } else {
                0
            })
            &&& p < h ==> order == ProxyRequestOrderModel::AddHttpListener(config.http_listeners[p])
            &&& h <= p < h + s ==> order == ProxyRequestOrderModel::AddHttpsListener(
                config.https_listeners[p - h],
            )
            &&& h + s <= p < all ==> order == ProxyRequestOrderModel::AddTcpListener(
                config.tcp_listeners[p - h - s],
            )
            &&& all <= p < all + middle.len() ==> order == middle[p - all]
            &&& all + middle.len() <= p ==> order == config.activation_orders()[p - all
                - middle.len()]
        }),
{
    assert(config.messages()[p] == config.message(p));
}

proof fn lemma_starts(config: ConfigModel, q: int)
    requires
        config.activate_listeners,
        0 <= q < config.activation_orders().len(),
    ensures
        ({
            let (h, s, t) = (
                config.http_listeners.len(),
                config.https_listeners.len(),
                config.tcp_listeners.len(),
            );
            let order = config.activation_orders()[q];
            &&& config.activation_orders().len() == h + s + t
            &&& order is ActivateListener
            &&& !order->ActivateListener_0.from_scm
            &&& q < h ==> order->ActivateListener_0.address == config.http_listeners[q].address
                && order->ActivateListener_0.proxy == ListenerType::HTTP
            &&& h <= q < h + s ==> order->ActivateListener_0.address == config.https_listeners[q
                - h].address && order->ActivateListener_0.proxy == ListenerType::HTTPS
            &&& h + s <= q ==> order->ActivateListener_0.address == config.tcp_listeners[q - h
                - s].address && order->ActivateListener_0.proxy == ListenerType::TCP
        }),
{
}

/// A worker is told of every listener of the configuration, of no other one, and of nothing else
/// before.
pub proof fn law_every_listener_is_set_up(config: ConfigModel)
    ensures
        forall|k: int|
            0 <= k < config.http_listeners.len() ==> brings(
                config.messages(),
                k,
                ProxyRequestOrderModel::AddHttpListener(#[trigger] config.http_listeners[k]),
            ),
        forall|k: int|
            0 <= k < config.https_listeners.len() ==> brings(
                config.messages(),
                config.http_listeners.len() + k,
                ProxyRequestOrderModel::AddHttpsListener(#[trigger] config.https_listeners[k]),
            ),
        forall|k: int|
            0 <= k < config.tcp_listeners.len() ==> brings(
                config.messages(),
                config.http_listeners.len() + config.https_listeners.len() + k,
                ProxyRequestOrderModel::AddTcpListener(#[trigger] config.tcp_listeners[k]),
            ),
        forall|p: int|
            config.http_listeners.len() + config.https_listeners.len() + config.tcp_listeners.len()
                <= p < config.messages().len() ==> match (#[trigger] config.messages()[p]).order {
                CommandRequestOrderModel::Proxy(order) => !(order is AddHttpListener)
                    && !(order is AddHttpsListener) && !(order is AddTcpListener),
                _ => false,
            },
{
    let h = config.http_listeners.len();
    let s = config.https_listeners.len();
    let t = config.tcp_listeners.len();
    assert(config.orders().len() >= h + s + t);
    assert forall|k: int| 0 <= k < h implies brings(
        config.messages(),
        k,
        ProxyRequestOrderModel::AddHttpListener(#[trigger] config.http_listeners[k]),
    ) by {
        lemma_places(config, k);
    }
    assert forall|k: int| 0 <= k < s implies brings(
        config.messages(),
        h + k,
        ProxyRequestOrderModel::AddHttpsListener(#[trigger] config.https_listeners[k]),
    ) by {
        lemma_places(config, h + k);
    }
    assert forall|k: int| 0 <= k < t implies brings(
        config.messages(),
        h + s + k,
        ProxyRequestOrderModel::AddTcpListener(#[trigger] config.tcp_listeners[k]),
    ) by {
        lemma_places(config, h + s + k);
    }
    assert forall|p: int| h + s + t <= p < config.messages().len() implies match (
    #[trigger] config.messages()[p]).order {
        CommandRequestOrderModel::Proxy(order) => !(order is AddHttpListener)
            && !(order is AddHttpsListener) && !(order is AddTcpListener),
        _ => false,
    } by {
        lemma_places(config, p);
        let middle = super::messages::cluster_orders(config.clusters);
        if p < h + s + t + middle.len() {
            lemma_cluster_order(config.clusters, p - h - s - t);
        } else {
            lemma_starts(config, p - h - s - t - middle.len());
        }
    }
}

/// A listener is started only where an earlier message sets up a listener of its type at its address.
/// Where the configuration says so every listener is started, with its own type; otherwise none is.
pub proof fn law_started_listeners_are_set_up(config: ConfigModel)
    ensures
        forall|p: int|
            0 <= p < config.messages().len() ==> match (#[trigger] config.messages()[p]).order {
                CommandRequestOrderModel::Proxy(
                    ProxyRequestOrderModel::ActivateListener(start),
                ) => {
                    &&& config.activate_listeners
                    &&& !start.from_scm
                    &&& listener_before(config.messages(), p, start.address, start.proxy)
                },
                _ => true,
            },
        config.activate_listeners ==> {
            &&& forall|k: int|
                0 <= k < config.http_listeners.len() ==> is_started(
                    config.messages(),
                    (#[trigger] config.http_listeners[k]).address,
                    ListenerType::HTTP,
                )
            &&& forall|k: int|
                0 <= k < config.https_listeners.len() ==> is_started(
                    config.messages(),
                    (#[trigger] config.https_listeners[k]).address,
                    ListenerType::HTTPS,
                )
            &&& forall|k: int|
                0 <= k < config.tcp_listeners.len() ==> is_started(
                    config.messages(),
                    (#[trigger] config.tcp_listeners[k]).address,
                    ListenerType::TCP,
                )
        },
{
    let messages = config.messages();
    let h = config.http_listeners.len();
    let s = config.https_listeners.len();
    let t = config.tcp_listeners.len();
    let middle = super::messages::cluster_orders(config.clusters);
    let first = h + s + t + middle.len();
    assert forall|p: int| 0 <= p < messages.len() implies match (#[trigger] messages[p]).order {
        CommandRequestOrderModel::Proxy(ProxyRequestOrderModel::ActivateListener(start)) => {
            &&& config.activate_listeners
            &&& !start.from_scm
            &&& listener_before(messages, p, start.address, start.proxy)
        },
        _ => true,
    } by {
        lemma_places(config, p);
        if h + s + t <= p < first {
            lemma_cluster_order(config.clusters, p - h - s - t);
        } else if first <= p {
            let q = p - first;
            lemma_starts(config, q);
            lemma_places(config, q);
            assert(messages[q] == config.message(q));
        }
    }
    if config.activate_listeners {
        assert forall|k: int| 0 <= k < h implies is_started(
            messages,
            (#[trigger] config.http_listeners[k]).address,
            ListenerType::HTTP,
        ) by {
            lemma_starts(config, k);
            assert(first + k < config.orders().len());
            lemma_places(config, first + k);
            assert(messages[first + k].order is Proxy);
        }
        assert forall|k: int| 0 <= k < s implies is_started(
            messages,
            (#[trigger] config.https_listeners[k]).address,
            ListenerType::HTTPS,
        ) by {
            lemma_starts(config, h + k);
            assert(first + h + k < config.orders().len());
            lemma_places(config, first + h + k);
            assert(messages[first + h + k].order is Proxy);
        }
        assert forall|k: int| 0 <= k < t implies is_started(
            messages,
            (#[trigger] config.tcp_listeners[k]).address,
            ListenerType::TCP,
        ) by {
            lemma_starts(config, h + s + k);
            assert(first + h + s + k < config.orders().len());
            lemma_places(config, first + h + s + k);
            assert(messages[first + h + s + k].order is Proxy);
        }
    }
}

/// The order sets up the cluster itself, with all of its options.
pub open spec fn sets_up_cluster(
    order: ProxyRequestOrderModel,
    cluster: ClusterConfigModel,
) -> bool {
    match (order, cluster) {
        (ProxyRequestOrderModel::AddCluster(told), ClusterConfigModel::Http(http)) => {
            &&& told.cluster_id == http.cluster_id
            &&& told.sticky_session == http.sticky_session
            &&& told.https_redirect == http.https_redirect
            &&& told.proxy_protocol is None
            &&& told.load_balancing == http.load_balancing
            &&& told.load_metric == http.load_metric
            &&& told.answer_503 == http.answer_503
        },
        (ProxyRequestOrderModel::AddCluster(told), ClusterConfigModel::Tcp(tcp)) => {
            &&& told.cluster_id == tcp.cluster_id
            &&& !told.sticky_session
            &&& !told.https_redirect
            &&& told.proxy_protocol == tcp.proxy_protocol
            &&& told.load_balancing == tcp.load_balancing
            &&& told.load_metric == tcp.load_metric
            &&& told.answer_503 is None
        },
        _ => false,
    }
}

/// The rule sends the requests that the frontend takes to its cluster.
pub open spec fn routes_to_cluster(
    rule: HttpFrontendModel,
    frontend: HttpFrontendConfigModel,
    cluster_id: Seq<char>,
) -> bool {
    &&& rule.route == RouteModel::ClusterId(cluster_id)
    &&& rule.address == frontend.address
    &&& rule.hostname == frontend.hostname
    &&& rule.path == frontend.path
    &&& rule.method == frontend.method
    &&& rule.position == frontend.position
    &&& rule.tags == frontend.tags
}

/// The order sets up the frontend: an HTTPS one with a certificate and its key, otherwise an HTTP one.
pub open spec fn sets_up_frontend(
    order: ProxyRequestOrderModel,
    frontend: HttpFrontendConfigModel,
    cluster_id: Seq<char>,
) -> bool {
    match order {
        ProxyRequestOrderModel::AddHttpsFrontend(rule) => frontend.certificate is Some
            && frontend.key is Some && routes_to_cluster(rule, frontend, cluster_id),
        ProxyRequestOrderModel::AddHttpFrontend(rule) => !(frontend.certificate is Some
            && frontend.key is Some) && routes_to_cluster(rule, frontend, cluster_id),
        _ => false,
    }
}

/// The order brings the certificate of the frontend, for its hostname at its address.
pub open spec fn brings_certificate(
    order: ProxyRequestOrderModel,
    frontend: HttpFrontendConfigModel,
) -> bool {
    match order {
        ProxyRequestOrderModel::AddCertificate(told) => {
            &&& frontend.certificate == Some(told.certificate.certificate)
            &&& frontend.key == Some(told.certificate.key)
            &&& told.certificate.certificate_chain == (match frontend.certificate_chain {
                Some(chain) => chain,
                None => Seq::empty(),
            })
            &&& told.certificate.versions == frontend.tls_versions
            &&& told.address == frontend.address
            &&& told.names.len() == 1 && told.names[0] == frontend.hostname
            &&& told.expired_at is None
        },
        _ => false,
    }
}

/// The order sets up the TCP frontend.
pub open spec fn sets_up_tcp_frontend(
    order: ProxyRequestOrderModel,
    tcp: TcpClusterConfigModel,
    k: int,
) -> bool {
    match order {
        ProxyRequestOrderModel::AddTcpFrontend(told) => {
            &&& told.cluster_id == tcp.cluster_id
            &&& told.address == tcp.frontends[k].address
            &&& told.tags == tcp.frontends[k].tags
        },
        _ => false,
    }
}

/// The order sets up the backend in this place of its cluster. It weighs 100 unless its weight is
/// given, and is called by its cluster, its place and its address unless it has a name.
pub open spec fn sets_up_backend(
    order: ProxyRequestOrderModel,
    backend: BackendConfigModel,
    cluster_id: Seq<char>,
    place: int,
) -> bool {
    match order {
        ProxyRequestOrderModel::AddBackend(told) => {
            &&& told.cluster_id == cluster_id
            &&& told.address == backend.address
            &&& told.sticky_id == backend.sticky_id
            &&& told.backup == backend.backup
            &&& told.load_balancing_parameters is Some
            &&& told.load_balancing_parameters->0.weight == (match backend.weight {
                Some(weight) => weight,
                None => 100u8,
            })
            &&& told.backend_id == (match backend.backend_id {
                Some(id) => id,
                None => cluster_id + "-"@ + crate::text::decimal(place as nat) + "-"@
                    + backend.address.text(),
            })
        },
        _ => false,
    }
}

/// The frontend is set up by one of the orders, and its certificate by the order in front of it.
pub open spec fn has_frontend(
    orders: Seq<ProxyRequestOrderModel>,
    frontend: HttpFrontendConfigModel,
    cluster_id: Seq<char>,
) -> bool {
    exists|p: int|
        0 < p < orders.len() && sets_up_frontend(#[trigger] orders[p], frontend, cluster_id) && (
        orders[p] is AddHttpsFrontend ==> brings_certificate(orders[p - 1], frontend))
}

/// The orders of the frontends set them up.
proof fn lemma_frontends_are_set_up(
    frontends: Seq<HttpFrontendConfigModel>,
    cluster_id: Seq<char>,
    k: int,
) -> (p: int)
    requires
        0 <= k < frontends.len(),
    ensures
        ({
            let orders = super::orders::http_frontend_orders(frontends, cluster_id);
            &&& 0 <= p < orders.len()
            &&& sets_up_frontend(orders[p], frontends[k], cluster_id)
            &&& orders[p] is AddHttpsFrontend ==> p > 0 && brings_certificate(
                orders[p - 1],
                frontends[k],
            )
        }),
    decreases frontends.len(),
{
    let first = frontends.drop_last();
    let before = super::orders::http_frontend_orders(first, cluster_id);
    let orders = super::orders::http_frontend_orders(frontends, cluster_id);
    let last = frontends.last().orders(cluster_id);
    assert(orders =~= before + last);
    if k < first.len() {
        let p = lemma_frontends_are_set_up(first, cluster_id, k);
        assert(orders[p] == before[p]);
        if p > 0 {
            assert(orders[p - 1] == before[p - 1]);
        }
        p
    } else {
        let p = (before.len() + last.len() - 1) as int;
        assert(orders[p] == last[last.len() - 1]);
        if last.len() == 2 {
            assert(orders[p - 1] == last[0]);
        }
        p
    }
}

/// The orders of a frontend are nothing but what sets it up.
proof fn lemma_frontend_order(
    frontends: Seq<HttpFrontendConfigModel>,
    cluster_id: Seq<char>,
    p: int,
) -> (k: int)
    requires
        0 <= p < super::orders::http_frontend_orders(frontends, cluster_id).len(),
    ensures
        0 <= k < frontends.len(),
        ({
            let order = super::orders::http_frontend_orders(frontends, cluster_id)[p];
            sets_up_frontend(order, frontends[k], cluster_id) || brings_certificate(
                order,
                frontends[k],
            )
        }),
    decreases frontends.len(),
{
    let first = frontends.drop_last();
    let before = super::orders::http_frontend_orders(first, cluster_id);
    if p < before.len() {
        lemma_frontend_order(first, cluster_id, p)
    } else {
        frontends.len() - 1
    }
}

/// The order is one that sets up a part of the cluster.
pub open spec fn sets_up_part(order: ProxyRequestOrderModel, cluster: ClusterConfigModel) -> bool {
    ||| sets_up_cluster(order, cluster)
    ||| match cluster {
        ClusterConfigModel::Http(http) => {
            ||| exists|k: int|
                0 <= k < http.frontends.len() && (sets_up_frontend(
                    order,
                    #[trigger] http.frontends[k],
                    http.cluster_id,
                ) || brings_certificate(order, http.frontends[k]))
            ||| exists|k: int|
                0 <= k < http.backends.len() && sets_up_backend(
                    order,
                    #[trigger] http.backends[k],
                    http.cluster_id,
                    k,
                )
        },
        ClusterConfigModel::Tcp(tcp) => {
            ||| exists|k: int|
                0 <= k < tcp.frontends.len() && #[trigger] sets_up_tcp_frontend(order, tcp, k)
            ||| exists|k: int|
                0 <= k < tcp.backends.len() && sets_up_backend(
                    order,
                    #[trigger] tcp.backends[k],
                    tcp.cluster_id,
                    k,
                )
        },
    }
}

/// The orders set up the cluster first, and then all of its frontends and backends.
pub open spec fn set_up_whole(
    orders: Seq<ProxyRequestOrderModel>,
    cluster: ClusterConfigModel,
) -> bool {
    &&& orders.len() > 0
    &&& sets_up_cluster(orders[0], cluster)
    &&& forall|p: int| 0 <= p < orders.len() ==> sets_up_part(#[trigger] orders[p], cluster)
    &&& match cluster {
        ClusterConfigModel::Http(http) => {
            &&& forall|k: int|
                0 <= k < http.frontends.len() ==> has_frontend(
                    orders,
                    #[trigger] http.frontends[k],
                    http.cluster_id,
                )
            &&& forall|k: int|
                0 <= k < http.backends.len() ==> orders.len() > http.backends.len()
                    && sets_up_backend(
                    orders[orders.len() - http.backends.len() + k],
                    #[trigger] http.backends[k],
                    http.cluster_id,
                    k,
                )
        },
        ClusterConfigModel::Tcp(tcp) => {
            &&& orders.len() == 1 + tcp.frontends.len() + tcp.backends.len()
            &&& forall|k: int|
                0 <= k < tcp.frontends.len() ==> sets_up_tcp_frontend(
                    #[trigger] orders[1 + k],
                    tcp,
                    k,
                )
            &&& forall|k: int|
                0 <= k < tcp.backends.len() ==> sets_up_backend(
                    orders[1 + tcp.frontends.len() + k],
                    #[trigger] tcp.backends[k],
                    tcp.cluster_id,
                    k,
                )
        },
    }
}

proof fn lemma_cluster_is_set_up(cluster: ClusterConfigModel)
    ensures
        set_up_whole(cluster.orders(), cluster),
{
    let orders = cluster.orders();
    match cluster {
        ClusterConfigModel::Http(http) => {
            let middle = super::orders::http_frontend_orders(http.frontends, http.cluster_id);
            let tail = super::orders::backend_orders(http.backends, http.cluster_id);
            assert(orders.len() == 1 + middle.len() + tail.len());
            assert forall|k: int| 0 <= k < http.frontends.len() implies has_frontend(
                orders,
                #[trigger] http.frontends[k],
                http.cluster_id,
            ) by {
                let p = lemma_frontends_are_set_up(http.frontends, http.cluster_id, k);
                assert(orders[1 + p] == middle[p]);
                if p > 0 {
                    assert(orders[p] == middle[p - 1]);
                }
            }
            assert forall|p: int| 0 <= p < orders.len() implies sets_up_part(
                #[trigger] orders[p],
                cluster,
            ) by {
                if 0 < p <= middle.len() {
                    assert(orders[p] == middle[p - 1]);
                    let k = lemma_frontend_order(http.frontends, http.cluster_id, p - 1);
                    assert(0 <= k < http.frontends.len());
                } else if p > middle.len() {
                    let k = p - 1 - middle.len();
                    assert(orders[p] == tail[k]);
                    assert(sets_up_backend(orders[p], http.backends[k], http.cluster_id, k));
                }
            }
        },
        ClusterConfigModel::Tcp(tcp) => {
            let middle = super::orders::tcp_frontend_orders(tcp.frontends, tcp.cluster_id);
            let tail = super::orders::backend_orders(tcp.backends, tcp.cluster_id);
            assert forall|p: int| 0 <= p < orders.len() implies sets_up_part(
                #[trigger] orders[p],
                cluster,
            ) by {
                if 0 < p <= middle.len() {
                    assert(orders[p] == middle[p - 1]);
                    assert(sets_up_tcp_frontend(orders[p], tcp, p - 1));
                } else if p > middle.len() {
                    let k = p - 1 - middle.len();
                    assert(orders[p] == tail[k]);
                    assert(sets_up_backend(orders[p], tcp.backends[k], tcp.cluster_id, k));
                }
            }
        },
    }
}

/// Where the orders of a cluster stand among those of all clusters.
proof fn lemma_orders_of_cluster(clusters: Seq<(Seq<char>, ClusterConfigModel)>, c: int) -> (from:
    int)
    requires
        0 <= c < clusters.len(),
    ensures
        0 <= from,
        from + clusters[c].1.orders().len() <= super::messages::cluster_orders(clusters).len(),
        super::messages::cluster_orders(clusters).subrange(
            from,
            from + clusters[c].1.orders().len(),
        ) == clusters[c].1.orders(),
    decreases clusters.len(),
{
    let first = clusters.drop_last();
    let before = super::messages::cluster_orders(first);
    let all = super::messages::cluster_orders(clusters);
    if c < first.len() {
        let from = lemma_orders_of_cluster(first, c);
        let end = from + clusters[c].1.orders().len();
        assert(all.subrange(from, end) =~= before.subrange(from, end));
        from
    } else {
        let from = before.len() as int;
        assert(all.subrange(from, all.len() as int) =~= clusters[c].1.orders());
        from
    }
}

/// Every order for the clusters sets up a part of one of them.
proof fn lemma_cluster_order(clusters: Seq<(Seq<char>, ClusterConfigModel)>, k: int) -> (c: int)
    requires
        0 <= k < super::messages::cluster_orders(clusters).len(),
    ensures
        0 <= c < clusters.len(),
        sets_up_part(super::messages::cluster_orders(clusters)[k], clusters[c].1),
        ({
            let order = super::messages::cluster_orders(clusters)[k];
            &&& !(order is ActivateListener)
            &&& !(order is AddHttpListener)
            &&& !(order is AddHttpsListener)
            &&& !(order is AddTcpListener)
        }),
    decreases clusters.len(),
{
    let first = clusters.drop_last();
    let before = super::messages::cluster_orders(first);
    let all = super::messages::cluster_orders(clusters);
    if k < before.len() {
        assert(all[k] == before[k]);
        lemma_cluster_order(first, k)
    } else {
        let last = clusters.last().1;
        lemma_cluster_is_set_up(last);
        assert(all[k] == last.orders()[k - before.len()]);
        assert(sets_up_part(last.orders()[k - before.len()], last));
        clusters.len() - 1
    }
}

/// The orders that the messages from `from` to `end` bring.
pub open spec fn orders_in(messages: Seq<CommandRequestModel>, from: int, end: int) -> Seq<
    ProxyRequestOrderModel,
> {
    Seq::new((end - from) as nat, |i: int| messages[from + i].order->Proxy_0)
}

/// The messages from `from` to `end` set up the cluster.
pub open spec fn set_up_in(
    messages: Seq<CommandRequestModel>,
    from: int,
    end: int,
    cluster: ClusterConfigModel,
) -> bool {
    &&& 0 <= from <= end <= messages.len()
    &&& forall|p: int|
        from <= p < end ==> (#[trigger] messages[p]).order is Proxy && messages[p].worker_id is None
    &&& set_up_whole(orders_in(messages, from, end), cluster)
}

/// For every cluster of the configuration there are messages in a row that set it up: the cluster
/// first, and then its frontends and backends, each with all of its properties.
pub proof fn law_every_cluster_is_set_up(config: ConfigModel, c: int)
    requires
        0 <= c < config.clusters.len(),
    ensures
        exists|from: int, end: int| #[trigger]
            set_up_in(config.messages(), from, end, config.clusters[c].1),
{
    let (from, end) = lemma_cluster_in_messages(config, c);
    assert(set_up_in(config.messages(), from, end, config.clusters[c].1));
}

/// Whatever a message brings is a listener, a part of a cluster of the configuration, or the start of
/// a listener.
pub proof fn law_messages_bring_nothing_else(config: ConfigModel, p: int)
    requires
        0 <= p < config.messages().len(),
    ensures
        config.messages()[p].order is Proxy,
        ({
            let order = config.messages()[p].order->Proxy_0;
            ||| order is AddHttpListener
            ||| order is AddHttpsListener
            ||| order is AddTcpListener
            ||| order is ActivateListener
            ||| exists|c: int|
                0 <= c < config.clusters.len() && sets_up_part(
                    order,
                    (#[trigger] config.clusters[c]).1,
                )
        }),
{
    let all = config.http_listeners.len() + config.https_listeners.len()
        + config.tcp_listeners.len();
    let middle = super::messages::cluster_orders(config.clusters);
    lemma_places(config, p);
    if all <= p < all + middle.len() {
        let c = lemma_cluster_order(config.clusters, p - all);
        assert(sets_up_part(middle[p - all], config.clusters[c].1));
    } else if p >= all + middle.len() {
        lemma_starts(config, p - all - middle.len());
    }
}

proof fn lemma_cluster_in_messages(config: ConfigModel, c: int) -> (range: (int, int))
    requires
        0 <= c < config.clusters.len(),
    ensures
        set_up_in(config.messages(), range.0, range.1, config.clusters[c].1),
{
    let messages = config.messages();
    let all = config.http_listeners.len() + config.https_listeners.len()
        + config.tcp_listeners.len();
    let middle = super::messages::cluster_orders(config.clusters);
    let cluster = config.clusters[c].1;
    let orders = cluster.orders();
    let at = lemma_orders_of_cluster(config.clusters, c);
    let from = all + at;
    let end = from + orders.len();
    assert(config.orders().len() >= all + middle.len());
    assert forall|p: int| from <= p < end implies (#[trigger] messages[p]).order is Proxy
        && messages[p].worker_id is None by {
        lemma_places(config, p);
    }
    assert forall|i: int| 0 <= i < orders.len() implies #[trigger] orders_in(
        messages,
        from,
        end,
    )[i] == orders[i] by {
        lemma_places(config, from + i);
        assert(middle.subrange(at, at + orders.len())[i] == middle[at + i]);
    }
    assert(orders_in(messages, from, end) =~= orders);
    lemma_cluster_is_set_up(cluster);
    (from, end)
}

} // verus!
