//! What holds of every configuration that the proxy accepts.
use vstd::prelude::*;

use crate::address::SocketAddress;
use crate::proxy::{
    HttpListenerConfigModel, HttpsListenerConfigModel, TcpListenerConfigModel,
};

use super::assembly::{ListenerSetModel, Timeouts};
use super::environment::EnvironmentModel;
use super::error::ErrorContextModel;
use super::types::{
    ClusterConfigModel, ConfigModel, FileClusterConfigModel, FileClusterFrontendConfigModel,
    FileConfigModel, FileListenerProtocolConfig, HttpFrontendConfigModel, ListenerModel, TcpFrontendConfigModel,
};

verus! {

/// An HTTP listener is at `address`.
pub open spec fn http_at(http: Seq<HttpListenerConfigModel>, address: SocketAddress) -> bool {
    exists|i: int| 0 <= i < http.len() && #[trigger] http[i].address == address
}

/// An HTTPS listener is at `address`.
pub open spec fn https_at(https: Seq<HttpsListenerConfigModel>, address: SocketAddress) -> bool {
    exists|i: int| 0 <= i < https.len() && #[trigger] https[i].address == address
}

/// A TCP listener is at `address`.
pub open spec fn tcp_at(tcp: Seq<TcpListenerConfigModel>, address: SocketAddress) -> bool {
    exists|i: int| 0 <= i < tcp.len() && #[trigger] tcp[i].address == address
}

/// No two of the listeners share an address.
pub open spec fn apart(
    http: Seq<HttpListenerConfigModel>,
    https: Seq<HttpsListenerConfigModel>,
    tcp: Seq<TcpListenerConfigModel>,
) -> bool {
    &&& forall|i: int, j: int|
        0 <= i < j < http.len() ==> #[trigger] http[i].address != #[trigger] http[j].address
    &&& forall|i: int, j: int|
        0 <= i < j < https.len() ==> #[trigger] https[i].address != #[trigger] https[j].address
    &&& forall|i: int, j: int|
        0 <= i < j < tcp.len() ==> #[trigger] tcp[i].address != #[trigger] tcp[j].address
    &&& forall|address: SocketAddress|
        {
            &&& !(#[trigger] http_at(http, address) && https_at(https, address))
            &&& !(http_at(http, address) && tcp_at(tcp, address))
        }
    &&& forall|address: SocketAddress|
        !(#[trigger] https_at(https, address) && tcp_at(tcp, address))
}

impl ListenerSetModel {
    /// What is known of the addresses is what the listeners say, and no two listeners share an
    /// address.
    pub open spec fn consistent(self) -> bool {
        &&& forall|address: SocketAddress| #[trigger]
            http_at(self.http, address) <==> self.protocol_at(address) == Some(
                FileListenerProtocolConfig::Http,
            )
        &&& forall|address: SocketAddress| #[trigger]
            https_at(self.https, address) <==> self.protocol_at(address) == Some(
                FileListenerProtocolConfig::Https,
            )
        &&& forall|address: SocketAddress| #[trigger]
            tcp_at(self.tcp, address) <==> self.protocol_at(address) == Some(
                FileListenerProtocolConfig::Tcp,
            )
        &&& forall|i: int, j: int|
            0 <= i < j < self.http.len() ==> #[trigger] self.http[i].address
                != #[trigger] self.http[j].address
        &&& forall|i: int, j: int|
            0 <= i < j < self.https.len() ==> #[trigger] self.https[i].address
                != #[trigger] self.https[j].address
        &&& forall|i: int, j: int|
            0 <= i < j < self.tcp.len() ==> #[trigger] self.tcp[i].address
                != #[trigger] self.tcp[j].address
    }

    /// Every address keeps its protocol in `later`.
    pub open spec fn kept_in(self, later: ListenerSetModel) -> bool {
        forall|address: SocketAddress|
            self.protocol_at(address) is Some ==> #[trigger] later.protocol_at(address)
                == self.protocol_at(address)
    }

    /// A frontend with a certificate has an HTTPS listener, one without has an HTTP listener.
    pub open spec fn serves_http(self, frontend: HttpFrontendConfigModel) -> bool {
        match self.protocol_at(frontend.address) {
            Some(FileListenerProtocolConfig::Http) => frontend.certificate is None,
            Some(FileListenerProtocolConfig::Https) => frontend.certificate is Some,
            _ => false,
        }
    }

    pub open spec fn serves_all_http(self, frontends: Seq<HttpFrontendConfigModel>) -> bool {
        forall|i: int| 0 <= i < frontends.len() ==> #[trigger] self.serves_http(frontends[i])
    }

    pub open spec fn serves_all_tcp(self, frontends: Seq<TcpFrontendConfigModel>) -> bool {
        forall|i: int|
            0 <= i < frontends.len() ==> self.protocol_at(#[trigger] frontends[i].address) == Some(
                FileListenerProtocolConfig::Tcp,
            )
    }

    pub open spec fn serves(self, cluster: ClusterConfigModel) -> bool {
        match cluster {
            ClusterConfigModel::Http(http) => self.serves_all_http(http.frontends),
            ClusterConfigModel::Tcp(tcp) => self.serves_all_tcp(tcp.frontends),
        }
    }

    pub open spec fn serves_all(self, clusters: Seq<(Seq<char>, ClusterConfigModel)>) -> bool {
        forall|i: int| 0 <= i < clusters.len() ==> self.serves(#[trigger] clusters[i].1)
    }
}

/// A listener at a new address leaves the set consistent, and every address keeps its protocol.
proof fn lemma_new_address(
    set: ListenerSetModel,
    next: ListenerSetModel,
    address: SocketAddress,
    protocol: FileListenerProtocolConfig,
)
    requires
        set.consistent(),
        set.protocol_at(address) is None,
        next.known == set.known.push((address, protocol)),
        match protocol {
            FileListenerProtocolConfig::Http => {
                &&& next.http.len() > 0
                &&& next.http.drop_last() == set.http
                &&& next.http.last().address == address
                &&& next.https == set.https
                &&& next.tcp == set.tcp
            },
            FileListenerProtocolConfig::Https => {
                &&& next.https.len() > 0
                &&& next.https.drop_last() == set.https
                &&& next.https.last().address == address
                &&& next.http == set.http
                &&& next.tcp == set.tcp
            },
            FileListenerProtocolConfig::Tcp => {
                &&& next.tcp.len() > 0
                &&& next.tcp.drop_last() == set.tcp
                &&& next.tcp.last().address == address
                &&& next.http == set.http
                &&& next.https == set.https
            },
        },
    ensures
        next.consistent(),
        set.kept_in(next),
        next.protocol_at(address) == Some(protocol),
{
    assert(next.known.drop_last() =~= set.known);
    assert forall|a: SocketAddress| #[trigger] next.protocol_at(a) == (if a == address {
        Some(protocol)
    } else {
        set.protocol_at(a)
    }) by {}
    assert(!http_at(set.http, address));
    assert(!https_at(set.https, address));
    assert(!tcp_at(set.tcp, address));
    match protocol {
        FileListenerProtocolConfig::Http => {
            assert(next.http =~= set.http.push(next.http.last()));
            assert forall|a: SocketAddress| #[trigger]
                http_at(next.http, a) <==> next.protocol_at(a) == Some(
                    FileListenerProtocolConfig::Http,
                ) by {
                if a == address {
                    assert(next.http[next.http.len() - 1].address == a);
                }
                if http_at(next.http, a) && a != address {
                    let i = choose|i: int|
                        0 <= i < next.http.len() && #[trigger] next.http[i].address == a;
                    assert(set.http[i].address == a);
                }
                if http_at(set.http, a) {
                    let i = choose|i: int|
                        0 <= i < set.http.len() && #[trigger] set.http[i].address == a;
                    assert(next.http[i].address == a);
                }
            }
            assert forall|i: int, j: int| 0 <= i < j < next.http.len() implies #[trigger]
            next.http[i].address != #[trigger] next.http[j].address by {
                assert(set.http[i].address == next.http[i].address);
                if j < set.http.len() {
                    assert(set.http[j].address == next.http[j].address);
                }
            }
        },
        FileListenerProtocolConfig::Https => {
            assert(next.https =~= set.https.push(next.https.last()));
            assert forall|a: SocketAddress| #[trigger]
                https_at(next.https, a) <==> next.protocol_at(a) == Some(
                    FileListenerProtocolConfig::Https,
                ) by {
                if a == address {
                    assert(next.https[next.https.len() - 1].address == a);
                }
                if https_at(next.https, a) && a != address {
                    let i = choose|i: int|
                        0 <= i < next.https.len() && #[trigger] next.https[i].address == a;
                    assert(set.https[i].address == a);
                }
                if https_at(set.https, a) {
                    let i = choose|i: int|
                        0 <= i < set.https.len() && #[trigger] set.https[i].address == a;
                    assert(next.https[i].address == a);
                }
            }
            assert forall|i: int, j: int| 0 <= i < j < next.https.len() implies #[trigger]
            next.https[i].address != #[trigger] next.https[j].address by {
                assert(set.https[i].address == next.https[i].address);
                if j < set.https.len() {
                    assert(set.https[j].address == next.https[j].address);
                }
            }
        },
        FileListenerProtocolConfig::Tcp => {
            assert(next.tcp =~= set.tcp.push(next.tcp.last()));
            assert forall|a: SocketAddress| #[trigger]
                tcp_at(next.tcp, a) <==> next.protocol_at(a) == Some(
                    FileListenerProtocolConfig::Tcp,
                ) by {
                if a == address {
                    assert(next.tcp[next.tcp.len() - 1].address == a);
                }
                if tcp_at(next.tcp, a) && a != address {
                    let i = choose|i: int|
                        0 <= i < next.tcp.len() && #[trigger] next.tcp[i].address == a;
                    assert(set.tcp[i].address == a);
                }
                if tcp_at(set.tcp, a) {
                    let i = choose|i: int|
                        0 <= i < set.tcp.len() && #[trigger] set.tcp[i].address == a;
                    assert(next.tcp[i].address == a);
                }
            }
            assert forall|i: int, j: int| 0 <= i < j < next.tcp.len() implies #[trigger]
            next.tcp[i].address != #[trigger] next.tcp[j].address by {
                assert(set.tcp[i].address == next.tcp[i].address);
                if j < set.tcp.len() {
                    assert(set.tcp[j].address == next.tcp[j].address);
                }
            }
        },
    }
}

proof fn lemma_with_listener(
    set: ListenerSetModel,
    listener: ListenerModel,
    timeouts: Timeouts,
    env: EnvironmentModel,
)
    requires
        set.consistent(),
        set.with_listener(listener, timeouts, env) is Ok,
    ensures
        set.with_listener(listener, timeouts, env)->Ok_0.consistent(),
{
    let next = set.with_listener(listener, timeouts, env)->Ok_0;
    assert(next.http.drop_last() =~= set.http || next.http == set.http);
    assert(next.https.drop_last() =~= set.https || next.https == set.https);
    assert(next.tcp.drop_last() =~= set.tcp || next.tcp == set.tcp);
    lemma_new_address(set, next, listener.address, listener.protocol);
}

pub(crate) proof fn lemma_with_default(
    set: ListenerSetModel,
    address: SocketAddress,
    protocol: FileListenerProtocolConfig,
    timeouts: Timeouts,
    env: EnvironmentModel,
    context: ErrorContextModel,
)
    requires
        set.consistent(),
        set.protocol_at(address) is None,
        set.with_default(address, protocol, timeouts, env, context) is Ok,
    ensures
        ({
            let next = set.with_default(address, protocol, timeouts, env, context)->Ok_0;
            &&& next.consistent()
            &&& set.kept_in(next)
            &&& next.protocol_at(address) == Some(protocol)
        }),
{
    let next = set.with_default(address, protocol, timeouts, env, context)->Ok_0;
    assert(next.http.drop_last() =~= set.http || next.http == set.http);
    assert(next.https.drop_last() =~= set.https || next.https == set.https);
    assert(next.tcp.drop_last() =~= set.tcp || next.tcp == set.tcp);
    lemma_new_address(set, next, address, protocol);
}

pub(crate) proof fn lemma_certified(https: Seq<HttpsListenerConfigModel>, address: SocketAddress)
    ensures
        crate::config::assembly::certified(https, address) matches Some(listener)
            ==> listener.certificate is Some,
    decreases https.len(),
{
    if https.len() > 0 {
        lemma_certified(https.drop_first(), address);
    }
}

proof fn lemma_http_frontend(
    set: ListenerSetModel,
    frontend: HttpFrontendConfigModel,
    timeouts: Timeouts,
    env: EnvironmentModel,
)
    requires
        set.consistent(),
        set.with_http_frontend(frontend, timeouts, env) is Ok,
    ensures
        ({
            let (next, placed) = set.with_http_frontend(frontend, timeouts, env)->Ok_0;
            &&& next.consistent()
            &&& set.kept_in(next)
            &&& next.serves_http(placed)
            &&& placed.address == frontend.address
        }),
{
    lemma_certified(set.https, frontend.address);
    if set.protocol_at(frontend.address) is None {
        if frontend.certificate is Some {
            lemma_with_default(
                set,
                frontend.address,
                FileListenerProtocolConfig::Https,
                timeouts,
                env,
                ErrorContextModel::ToTls,
            );
        } else {
            lemma_with_default(
                set,
                frontend.address,
                FileListenerProtocolConfig::Http,
                timeouts,
                env,
                ErrorContextModel::ToHttp,
            );
        }
    }
}

proof fn lemma_http_frontends(
    set: ListenerSetModel,
    frontends: Seq<HttpFrontendConfigModel>,
    timeouts: Timeouts,
    env: EnvironmentModel,
)
    requires
        set.consistent(),
        set.with_http_frontends(frontends, timeouts, env) is Ok,
    ensures
        ({
            let (next, placed) = set.with_http_frontends(frontends, timeouts, env)->Ok_0;
            &&& next.consistent()
            &&& set.kept_in(next)
            &&& next.serves_all_http(placed)
        }),
    decreases frontends.len(),
{
    if frontends.len() > 0 {
        lemma_http_frontends(set, frontends.drop_last(), timeouts, env);
        let (middle, before) = set.with_http_frontends(
            frontends.drop_last(),
            timeouts,
            env,
        )->Ok_0;
        lemma_http_frontend(middle, frontends.last(), timeouts, env);
        let (next, placed) = set.with_http_frontends(frontends, timeouts, env)->Ok_0;
        assert forall|i: int| 0 <= i < placed.len() implies #[trigger] next.serves_http(
            placed[i],
        ) by {
            if i < before.len() {
                assert(middle.serves_http(before[i]));
                assert(next.protocol_at(before[i].address) == middle.protocol_at(
                    before[i].address,
                ));
            }
        }
        assert forall|a: SocketAddress| set.protocol_at(a) is Some implies #[trigger]
        next.protocol_at(a) == set.protocol_at(a) by {
            assert(middle.protocol_at(a) == set.protocol_at(a));
        }
    }
}

proof fn lemma_tcp_frontends(
    set: ListenerSetModel,
    frontends: Seq<TcpFrontendConfigModel>,
    timeouts: Timeouts,
    env: EnvironmentModel,
)
    requires
        set.consistent(),
        set.with_tcp_frontends(frontends, timeouts, env) is Ok,
    ensures
        ({
            let next = set.with_tcp_frontends(frontends, timeouts, env)->Ok_0;
            &&& next.consistent()
            &&& set.kept_in(next)
            &&& next.serves_all_tcp(frontends)
        }),
    decreases frontends.len(),
{
    if frontends.len() > 0 {
        let first = frontends.drop_last();
        lemma_tcp_frontends(set, first, timeouts, env);
        let middle = set.with_tcp_frontends(first, timeouts, env)->Ok_0;
        let address = frontends.last().address;
        if middle.protocol_at(address) is None {
            lemma_with_default(
                middle,
                address,
                FileListenerProtocolConfig::Tcp,
                timeouts,
                env,
                ErrorContextModel::ToTcp,
            );
        }
        let next = set.with_tcp_frontends(frontends, timeouts, env)->Ok_0;
        assert forall|i: int| 0 <= i < frontends.len() implies next.protocol_at(
            #[trigger] frontends[i].address,
        ) == Some(FileListenerProtocolConfig::Tcp) by {
            if i < first.len() {
                assert(middle.protocol_at(first[i].address) == Some(
                    FileListenerProtocolConfig::Tcp,
                ));
            }
        }
        assert forall|a: SocketAddress| set.protocol_at(a) is Some implies #[trigger]
        next.protocol_at(a) == set.protocol_at(a) by {
            assert(middle.protocol_at(a) == set.protocol_at(a));
        }
    }
}

proof fn lemma_served_stays(
    set: ListenerSetModel,
    next: ListenerSetModel,
    cluster: ClusterConfigModel,
)
    requires
        set.serves(cluster),
        set.kept_in(next),
    ensures
        next.serves(cluster),
{
    match cluster {
        ClusterConfigModel::Http(http) => {
            assert forall|i: int| 0 <= i < http.frontends.len() implies #[trigger] next.serves_http(
                http.frontends[i],
            ) by {
                assert(set.serves_http(http.frontends[i]));
                assert(next.protocol_at(http.frontends[i].address) == set.protocol_at(
                    http.frontends[i].address,
                ));
            }
        },
        ClusterConfigModel::Tcp(tcp) => {
            assert forall|i: int| 0 <= i < tcp.frontends.len() implies next.protocol_at(
                #[trigger] tcp.frontends[i].address,
            ) == Some(FileListenerProtocolConfig::Tcp) by {
                assert(set.protocol_at(tcp.frontends[i].address) == Some(
                    FileListenerProtocolConfig::Tcp,
                ));
            }
        },
    }
}

proof fn lemma_clusters(
    set: ListenerSetModel,
    clusters: Seq<(Seq<char>, FileClusterConfigModel)>,
    timeouts: Timeouts,
    env: EnvironmentModel,
)
    requires
        set.consistent(),
        set.with_clusters(clusters, timeouts, env) is Ok,
    ensures
        ({
            let (next, placed) = set.with_clusters(clusters, timeouts, env)->Ok_0;
            &&& next.consistent()
            &&& next.serves_all(placed)
            &&& placed.len() == clusters.len()
            &&& forall|i: int| 0 <= i < placed.len() ==> #[trigger] placed[i].0 == clusters[i].0
        }),
    decreases clusters.len(),
{
    if clusters.len() > 0 {
        let first = clusters.drop_last();
        lemma_clusters(set, first, timeouts, env);
        let (middle, before) = set.with_clusters(first, timeouts, env)->Ok_0;
        let (id, described) = clusters.last();
        let cluster = described.as_cluster(id, middle.expect_proxy, env)->Ok_0;
        match cluster {
            ClusterConfigModel::Http(http) => {
                lemma_http_frontends(middle, http.frontends, timeouts, env);
            },
            ClusterConfigModel::Tcp(tcp) => {
                lemma_tcp_frontends(middle, tcp.frontends, timeouts, env);
            },
        }
        let (next, placed) = set.with_clusters(clusters, timeouts, env)->Ok_0;
        assert forall|i: int| 0 <= i < placed.len() implies next.serves(
            #[trigger] placed[i].1,
        ) by {
            if i < before.len() {
                assert(middle.serves(before[i].1));
                lemma_served_stays(middle, next, before[i].1);
            }
        }
        assert forall|i: int| 0 <= i < placed.len() implies #[trigger] placed[i].0
            == clusters[i].0 by {
            if i < before.len() {
                assert(before[i].0 == first[i].0);
            }
        }
    }
}

pub(crate) proof fn lemma_from_listeners(listeners: Seq<ListenerModel>, timeouts: Timeouts, env: EnvironmentModel)
    requires
        ListenerSetModel::from_listeners(listeners, timeouts, env) is Ok,
    ensures
        ListenerSetModel::from_listeners(listeners, timeouts, env)->Ok_0.consistent(),
    decreases listeners.len(),
{
    if listeners.len() > 0 {
        lemma_from_listeners(listeners.drop_last(), timeouts, env);
        lemma_with_listener(
            ListenerSetModel::from_listeners(listeners.drop_last(), timeouts, env)->Ok_0,
            listeners.last(),
            timeouts,
            env,
        );
    }
}

/// The listeners that an accepted file leads to, and the clusters that they serve.
proof fn lemma_placed(file: FileConfigModel, env: EnvironmentModel)
    requires
        file.placed(env) is Ok,
    ensures
        file.placed(env)->Ok_0.0.consistent(),
        file.placed(env)->Ok_0.0.serves_all(file.placed(env)->Ok_0.1),
        ({
            let described = crate::config::assembly::or_default(file.clusters, Seq::empty());
            let placed = file.placed(env)->Ok_0.1;
            &&& placed.len() == described.len()
            &&& forall|i: int| 0 <= i < placed.len() ==> #[trigger] placed[i].0 == described[i].0
        }),
{
    let listeners = crate::config::assembly::or_default(file.listeners, Seq::empty());
    let clusters = crate::config::assembly::or_default(file.clusters, Seq::empty());
    lemma_from_listeners(listeners, file.timeouts(), env);
    lemma_clusters(
        ListenerSetModel::from_listeners(listeners, file.timeouts(), env)->Ok_0,
        clusters,
        file.timeouts(),
        env,
    );
}

/// No two listeners of an accepted configuration share an address, whatever their protocols are.
pub proof fn law_addresses_are_apart(
    file: FileConfigModel,
    config_path: Seq<char>,
    env: EnvironmentModel,
)
    ensures
        file.as_config(config_path, env) matches Ok(config) ==> apart(
            config.http_listeners,
            config.https_listeners,
            config.tcp_listeners,
        ),
{
    if file.as_config(config_path, env) is Ok {
        lemma_placed(file, env);
    }
}

/// Every frontend of an accepted configuration has a listener of its protocol at its address: an
/// HTTPS listener where the frontend has a certificate, an HTTP listener where it has none, and a TCP
/// listener where its cluster forwards TCP.
pub open spec fn every_frontend_is_served(config: ConfigModel) -> bool {
    forall|i: int|
        0 <= i < config.clusters.len() ==> match #[trigger] config.clusters[i].1 {
            ClusterConfigModel::Http(http) => forall|k: int|
                0 <= k < http.frontends.len() ==> if (
                #[trigger] http.frontends[k]).certificate is Some {
                    https_at(config.https_listeners, http.frontends[k].address)
                } else {
                    http_at(config.http_listeners, http.frontends[k].address)
                },
            ClusterConfigModel::Tcp(tcp) => forall|k: int|
                0 <= k < tcp.frontends.len() ==> tcp_at(
                    config.tcp_listeners,
                    (#[trigger] tcp.frontends[k]).address,
                ),
        }
}

/// Every frontend of an accepted configuration has a listener of its protocol at its address.
pub proof fn law_every_frontend_is_served(
    file: FileConfigModel,
    config_path: Seq<char>,
    env: EnvironmentModel,
)
    ensures
        file.as_config(config_path, env) matches Ok(config) ==> every_frontend_is_served(config),
{
    if let Ok(config) = file.as_config(config_path, env) {
        lemma_placed(file, env);
        let (set, placed) = file.placed(env)->Ok_0;
        assert forall|i: int| 0 <= i < config.clusters.len() implies match #[trigger] config.clusters[i].1 {
            ClusterConfigModel::Http(http) => forall|k: int|
                0 <= k < http.frontends.len() ==> if (
                #[trigger] http.frontends[k]).certificate is Some {
                    https_at(config.https_listeners, http.frontends[k].address)
                } else {
                    http_at(config.http_listeners, http.frontends[k].address)
                },
            ClusterConfigModel::Tcp(tcp) => forall|k: int|
                0 <= k < tcp.frontends.len() ==> tcp_at(
                    config.tcp_listeners,
                    (#[trigger] tcp.frontends[k]).address,
                ),
        } by {
            assert(set.serves(placed[i].1));
            match config.clusters[i].1 {
                ClusterConfigModel::Http(http) => {
                    assert forall|k: int| 0 <= k < http.frontends.len() implies if (
                    #[trigger] http.frontends[k]).certificate is Some {
                        https_at(config.https_listeners, http.frontends[k].address)
                    } else {
                        http_at(config.http_listeners, http.frontends[k].address)
                    } by {
                        assert(set.serves_http(http.frontends[k]));
                    }
                },
                ClusterConfigModel::Tcp(tcp) => {
                    assert forall|k: int| 0 <= k < tcp.frontends.len() implies tcp_at(
                        config.tcp_listeners,
                        (#[trigger] tcp.frontends[k]).address,
                    ) by {
                        assert(set.protocol_at(tcp.frontends[k].address) == Some(
                            FileListenerProtocolConfig::Tcp,
                        ));
                    }
                },
            }
        }
    }
}

/// No two clusters share an identifier.
pub open spec fn identifiers_differ<C>(clusters: Seq<(Seq<char>, C)>) -> bool {
    forall|i: int, k: int|
        0 <= i < k < clusters.len() ==> (#[trigger] clusters[i]).0 != (#[trigger] clusters[k]).0
}

/// An accepted configuration has the clusters of the file, in their order and under their
/// identifiers. Where these differ in the file, they differ in the configuration.
pub proof fn law_clusters_are_kept(
    file: FileConfigModel,
    config_path: Seq<char>,
    env: EnvironmentModel,
)
    ensures
        file.as_config(config_path, env) matches Ok(config) ==> {
            let described = crate::config::assembly::or_default(file.clusters, Seq::empty());
            &&& config.clusters.len() == described.len()
            &&& forall|i: int|
                0 <= i < config.clusters.len() ==> (#[trigger] config.clusters[i]).0
                    == described[i].0
            &&& identifiers_differ(described) ==> identifiers_differ(config.clusters)
        },
{
    if file.as_config(config_path, env) is Ok {
        lemma_placed(file, env);
    }
}

/// The listeners of the file are at their addresses and nowhere else.
pub(crate) proof fn lemma_known_addresses(
    listeners: Seq<ListenerModel>,
    timeouts: Timeouts,
    env: EnvironmentModel,
    address: SocketAddress,
)
    requires
        ListenerSetModel::from_listeners(listeners, timeouts, env) is Ok,
    ensures
        ListenerSetModel::from_listeners(listeners, timeouts, env)->Ok_0.protocol_at(
            address,
        ) is Some <==> crate::config::check::addresses(listeners).contains(address),
    decreases listeners.len(),
{
    let all = crate::config::check::addresses(listeners);
    if listeners.len() > 0 {
        let first = listeners.drop_last();
        lemma_known_addresses(first, timeouts, env, address);
        let set = ListenerSetModel::from_listeners(first, timeouts, env)->Ok_0;
        let next = ListenerSetModel::from_listeners(listeners, timeouts, env)->Ok_0;
        assert(next.known.drop_last() =~= set.known);
        let before = crate::config::check::addresses(first);
        assert(all.drop_last() =~= before);
        if before.contains(address) {
            let k = choose|k: int| 0 <= k < before.len() && before[k] == address;
            assert(all[k] == address);
        }
        if listeners.last().address == address {
            assert(all[all.len() - 1] == address);
        }
        if all.contains(address) && listeners.last().address != address {
            let k = choose|k: int| 0 <= k < all.len() && all[k] == address;
            assert(before[k] == address);
        }
    }
}

/// A second listener for an address comes up only among listeners with a reused address.
proof fn lemma_duplicate_is_reuse(
    listeners: Seq<ListenerModel>,
    timeouts: Timeouts,
    env: EnvironmentModel,
)
    requires
        crate::config::check::reused_address(listeners) is None,
    ensures
        ListenerSetModel::from_listeners(listeners, timeouts, env) matches Err(e)
            ==> e.cause !is DuplicateListener,
    decreases listeners.len(),
{
    if listeners.len() > 0 {
        let first = listeners.drop_last();
        lemma_duplicate_is_reuse(first, timeouts, env);
        if ListenerSetModel::from_listeners(first, timeouts, env) is Ok {
            lemma_known_addresses(first, timeouts, env, listeners.last().address);
        }
    }
}

proof fn lemma_cluster_refusal(
    described: FileClusterConfigModel,
    id: Seq<char>,
    expect_proxy: Seq<SocketAddress>,
    env: EnvironmentModel,
)
    ensures
        described.as_cluster(id, expect_proxy, env) matches Err(e)
            ==> e.cause !is DuplicateListener,
{
    lemma_http_refusal(described.frontends, env);
    lemma_tcp_refusal(described.frontends, id, expect_proxy);
}

proof fn lemma_http_refusal(
    frontends: Seq<FileClusterFrontendConfigModel>,
    env: EnvironmentModel,
)
    ensures
        crate::config::cluster::http_frontends(frontends, env) matches Err(e)
            ==> e.cause !is DuplicateListener,
    decreases frontends.len(),
{
    if frontends.len() > 0 {
        lemma_http_refusal(frontends.drop_last(), env);
    }
}

proof fn lemma_tcp_refusal(
    frontends: Seq<FileClusterFrontendConfigModel>,
    id: Seq<char>,
    expect_proxy: Seq<SocketAddress>,
)
    ensures
        crate::config::cluster::tcp_frontends(frontends, id, expect_proxy) matches Err(e)
            ==> e.cause !is DuplicateListener,
    decreases frontends.len(),
{
    if frontends.len() > 0 {
        lemma_tcp_refusal(frontends.drop_last(), id, expect_proxy);
    }
}

proof fn lemma_placing_refusal(
    set: ListenerSetModel,
    cluster: ClusterConfigModel,
    timeouts: Timeouts,
    env: EnvironmentModel,
)
    ensures
        set.with_cluster(cluster, timeouts, env) matches Err(e) ==> e.cause !is DuplicateListener,
{
    match cluster {
        ClusterConfigModel::Http(http) => {
            lemma_http_placing_refusal(set, http.frontends, timeouts, env);
        },
        ClusterConfigModel::Tcp(tcp) => {
            lemma_tcp_placing_refusal(set, tcp.frontends, timeouts, env);
        },
    }
}

proof fn lemma_http_placing_refusal(
    set: ListenerSetModel,
    frontends: Seq<HttpFrontendConfigModel>,
    timeouts: Timeouts,
    env: EnvironmentModel,
)
    ensures
        set.with_http_frontends(frontends, timeouts, env) matches Err(e)
            ==> e.cause !is DuplicateListener,
    decreases frontends.len(),
{
    if frontends.len() > 0 {
        lemma_http_placing_refusal(set, frontends.drop_last(), timeouts, env);
    }
}

proof fn lemma_tcp_placing_refusal(
    set: ListenerSetModel,
    frontends: Seq<TcpFrontendConfigModel>,
    timeouts: Timeouts,
    env: EnvironmentModel,
)
    ensures
        set.with_tcp_frontends(frontends, timeouts, env) matches Err(e)
            ==> e.cause !is DuplicateListener,
    decreases frontends.len(),
{
    if frontends.len() > 0 {
        lemma_tcp_placing_refusal(set, frontends.drop_last(), timeouts, env);
    }
}

proof fn lemma_clusters_refusal(
    set: ListenerSetModel,
    clusters: Seq<(Seq<char>, FileClusterConfigModel)>,
    timeouts: Timeouts,
    env: EnvironmentModel,
)
    ensures
        set.with_clusters(clusters, timeouts, env) matches Err(e) ==> e.cause !is DuplicateListener,
    decreases clusters.len(),
{
    if clusters.len() > 0 {
        lemma_clusters_refusal(set, clusters.drop_last(), timeouts, env);
        if let Ok((middle, _)) = set.with_clusters(clusters.drop_last(), timeouts, env) {
            let (id, described) = clusters.last();
            lemma_cluster_refusal(described, id, middle.expect_proxy, env);
            if let Ok(cluster) = described.as_cluster(id, middle.expect_proxy, env) {
                lemma_placing_refusal(middle, cluster, timeouts, env);
            }
        }
    }
}

/// A file that passed the check of its addresses is never refused for a second listener on an
/// address.
pub proof fn law_checked_file_has_no_duplicates(
    file: FileConfigModel,
    config_path: Seq<char>,
    env: EnvironmentModel,
)
    requires
        file.checked() is Ok,
    ensures
        file.as_config(config_path, env) matches Err(e) ==> e.cause !is DuplicateListener,
{
    let listeners = crate::config::assembly::or_default(file.listeners, Seq::empty());
    let clusters = crate::config::assembly::or_default(file.clusters, Seq::empty());
    lemma_duplicate_is_reuse(listeners, file.timeouts(), env);
    if let Ok(set) = ListenerSetModel::from_listeners(listeners, file.timeouts(), env) {
        lemma_clusters_refusal(set, clusters, file.timeouts(), env);
    }
}

} // verus!
