//! Which listeners an accepted configuration has, and what they lend to the frontends.
use vstd::prelude::*;

use crate::address::SocketAddress;
use crate::proxy::HttpsListenerConfigModel;

use super::assembly::{ListenerSetModel, Timeouts};
use super::environment::EnvironmentModel;
use super::error::ErrorContextModel;
use super::types::{
    ClusterConfigModel, FileClusterConfigModel, FileClusterFrontendConfigModel,
    FileClusterProtocolConfig, FileConfigModel, FileListenerProtocolConfig,
    HttpFrontendConfigModel,
};

verus! {

/// One of the frontends is at `address`.
pub open spec fn frontend_at(
    frontends: Seq<FileClusterFrontendConfigModel>,
    address: SocketAddress,
) -> bool {
    exists|k: int| 0 <= k < frontends.len() && (#[trigger] frontends[k]).address == address
}

/// A frontend of one of the clusters is at `address`.
pub open spec fn cluster_at(
    clusters: Seq<(Seq<char>, FileClusterConfigModel)>,
    address: SocketAddress,
) -> bool {
    exists|i: int|
        0 <= i < clusters.len() && frontend_at((#[trigger] clusters[i]).1.frontends, address)
}

/// A frontend that the file describes without certificate has those of the HTTPS listener at its
/// address, if there is one.
pub open spec fn borrows(
    https: Seq<HttpsListenerConfigModel>,
    described: FileClusterFrontendConfigModel,
    placed: HttpFrontendConfigModel,
) -> bool {
    described.certificate is None ==> forall|j: int|
        0 <= j < https.len() && (#[trigger] https[j]).address == described.address ==> {
            &&& https[j].certificate is Some
            &&& placed.certificate == https[j].certificate
            &&& placed.certificate_chain == Some(https[j].certificate_chain)
            &&& placed.key == https[j].key
        }
}

/// This holds of every frontend of an HTTP cluster.
pub open spec fn cluster_borrows(
    https: Seq<HttpsListenerConfigModel>,
    described: FileClusterConfigModel,
    placed: ClusterConfigModel,
) -> bool {
    described.protocol == FileClusterProtocolConfig::Http ==> match placed {
        ClusterConfigModel::Http(http) => {
            &&& http.frontends.len() == described.frontends.len()
            &&& forall|k: int|
                0 <= k < described.frontends.len() ==> borrows(
                    https,
                    #[trigger] described.frontends[k],
                    http.frontends[k],
                )
        },
        ClusterConfigModel::Tcp(_) => false,
    }
}

impl ListenerSetModel {
    /// `later` has the HTTPS listeners of this set, and the protocols at its addresses.
    pub open spec fn grows_to(self, later: ListenerSetModel) -> bool {
        &&& later.consistent()
        &&& self.kept_in(later)
        &&& self.https.is_prefix_of(later.https)
    }
}

/// A listener by default adds its address and no other.
proof fn lemma_default_adds(
    set: ListenerSetModel,
    address: SocketAddress,
    protocol: FileListenerProtocolConfig,
    timeouts: Timeouts,
    env: EnvironmentModel,
    context: ErrorContextModel,
)
    requires
        set.consistent(),
        set.protocol_at(address) is None,
        set.with_default(address, protocol, timeouts, env, context) is Ok,
    ensures
        ({
            let next = set.with_default(address, protocol, timeouts, env, context)->Ok_0;
            &&& set.grows_to(next)
            &&& next.protocol_at(address) == Some(protocol)
            &&& forall|a: SocketAddress| #[trigger]
                next.protocol_at(a) is Some <==> set.protocol_at(a) is Some || a == address
        }),
{
    super::laws::lemma_with_default(set, address, protocol, timeouts, env, context);
    let next = set.with_default(address, protocol, timeouts, env, context)->Ok_0;
    assert(next.known.drop_last() =~= set.known);
    assert(set.https.is_prefix_of(next.https));
}

/// The listener that lends its certificate is one at the address.
proof fn lemma_certified_is_there(https: Seq<HttpsListenerConfigModel>, address: SocketAddress)
    ensures
        crate::config::assembly::certified(https, address) matches Some(listener) ==> {
            &&& listener.certificate is Some
            &&& exists|i: int|
                0 <= i < https.len() && #[trigger] https[i] == listener && listener.address
                    == address
        },
    decreases https.len(),
{
    if https.len() > 0 {
        let rest = https.drop_first();
        lemma_certified_is_there(rest, address);
        if let Some(listener) = crate::config::assembly::certified(https, address) {
            if https[0].address == address && https[0].certificate is Some {
                assert(https[0] == listener);
            } else {
                let i = choose|i: int|
                    0 <= i < rest.len() && #[trigger] rest[i] == listener && listener.address
                        == address;
                assert(https[i + 1] == listener);
            }
        }
    }
}

proof fn lemma_http_frontend_borrows(
    set: ListenerSetModel,
    described: FileClusterFrontendConfigModel,
    timeouts: Timeouts,
    env: EnvironmentModel,
)
    requires
        set.consistent(),
        described.as_http(env) is Ok,
        set.with_http_frontend(described.as_http(env)->Ok_0, timeouts, env) is Ok,
    ensures
        ({
            let (next, placed) = set.with_http_frontend(
                described.as_http(env)->Ok_0,
                timeouts,
                env,
            )->Ok_0;
            &&& set.grows_to(next)
            &&& forall|a: SocketAddress| #[trigger]
                next.protocol_at(a) is Some <==> set.protocol_at(a) is Some || a
                    == described.address
            &&& borrows(next.https, described, placed)
        }),
{
    let frontend = described.as_http(env)->Ok_0;
    let address = described.address;
    let (next, placed) = set.with_http_frontend(frontend, timeouts, env)->Ok_0;
    lemma_certified_is_there(set.https, address);
    assert(set.https.is_prefix_of(set.https));
    if set.protocol_at(address) is None {
        if frontend.certificate is Some {
            lemma_default_adds(
                set,
                address,
                FileListenerProtocolConfig::Https,
                timeouts,
                env,
                ErrorContextModel::ToTls,
            );
        } else {
            lemma_default_adds(
                set,
                address,
                FileListenerProtocolConfig::Http,
                timeouts,
                env,
                ErrorContextModel::ToHttp,
            );
        }
    }
    if described.certificate is None {
        assert forall|j: int|
            0 <= j < next.https.len() && (#[trigger] next.https[j]).address == address implies {
            &&& next.https[j].certificate is Some
            &&& placed.certificate == next.https[j].certificate
            &&& placed.certificate_chain == Some(next.https[j].certificate_chain)
            &&& placed.key == next.https[j].key
        } by {
            assert(super::laws::https_at(next.https, address));
            assert(set.protocol_at(address) == Some(FileListenerProtocolConfig::Https));
            let listener = crate::config::assembly::certified(set.https, address)->0;
            let i = choose|i: int|
                0 <= i < set.https.len() && #[trigger] set.https[i] == listener && listener.address
                    == address;
            assert(set.https[i].address == set.https[j].address);
            assert(i == j);
        }
    }
}

/// What a listener lent stays what it has.
proof fn lemma_borrowed_stays(
    set: ListenerSetModel,
    next: ListenerSetModel,
    described: FileClusterFrontendConfigModel,
    placed: HttpFrontendConfigModel,
)
    requires
        set.consistent(),
        set.grows_to(next),
        set.protocol_at(described.address) is Some,
        borrows(set.https, described, placed),
    ensures
        borrows(next.https, described, placed),
{
    let address = described.address;
    if described.certificate is None {
        assert forall|j: int|
            0 <= j < next.https.len() && (#[trigger] next.https[j]).address == address implies {
            &&& next.https[j].certificate is Some
            &&& placed.certificate == next.https[j].certificate
            &&& placed.certificate_chain == Some(next.https[j].certificate_chain)
            &&& placed.key == next.https[j].key
        } by {
            assert(super::laws::https_at(next.https, address));
            assert(next.protocol_at(address) == set.protocol_at(address));
            assert(super::laws::https_at(set.https, address));
            let i = choose|i: int|
                0 <= i < set.https.len() && #[trigger] set.https[i].address == address;
            assert(next.https[i] == set.https[i]);
            assert(next.https[i].address == next.https[j].address);
            assert(i == j);
        }
    }
}

proof fn lemma_grows_on(set: ListenerSetModel, middle: ListenerSetModel, next: ListenerSetModel)
    requires
        set.grows_to(middle),
        middle.grows_to(next),
    ensures
        set.grows_to(next),
{
    assert forall|a: SocketAddress| set.protocol_at(a) is Some implies #[trigger]
    next.protocol_at(a) == set.protocol_at(a) by {
        assert(middle.protocol_at(a) == set.protocol_at(a));
    }
    assert forall|i: int| 0 <= i < set.https.len() implies set.https[i] == next.https[i] by {
        assert(set.https[i] == middle.https[i]);
    }
    assert(set.https =~= next.https.subrange(0, set.https.len() as int));
}

/// The frontends with one more are at its address too.
proof fn lemma_one_more_frontend(
    frontends: Seq<FileClusterFrontendConfigModel>,
    address: SocketAddress,
)
    requires
        frontends.len() > 0,
    ensures
        frontend_at(frontends, address) <==> frontend_at(frontends.drop_last(), address)
            || frontends.last().address == address,
{
    let first = frontends.drop_last();
    if frontend_at(first, address) {
        let k = choose|k: int| 0 <= k < first.len() && (#[trigger] first[k]).address == address;
        assert(frontends[k].address == address);
    }
    if frontends.last().address == address {
        assert(frontends[frontends.len() - 1].address == address);
    }
    if frontend_at(frontends, address) && frontends.last().address != address {
        let k = choose|k: int|
            0 <= k < frontends.len() && (#[trigger] frontends[k]).address == address;
        assert(first[k].address == address);
    }
}

proof fn lemma_http_frontends_borrow(
    set: ListenerSetModel,
    described: Seq<FileClusterFrontendConfigModel>,
    timeouts: Timeouts,
    env: EnvironmentModel,
)
    requires
        set.consistent(),
        crate::config::cluster::http_frontends(described, env) is Ok,
        set.with_http_frontends(
            crate::config::cluster::http_frontends(described, env)->Ok_0,
            timeouts,
            env,
        ) is Ok,
    ensures
        ({
            let (next, placed) = set.with_http_frontends(
                crate::config::cluster::http_frontends(described, env)->Ok_0,
                timeouts,
                env,
            )->Ok_0;
            &&& set.grows_to(next)
            &&& placed.len() == described.len()
            &&& forall|a: SocketAddress| #[trigger]
                next.protocol_at(a) is Some <==> set.protocol_at(a) is Some || frontend_at(
                    described,
                    a,
                )
            &&& forall|k: int|
                0 <= k < described.len() ==> borrows(
                    next.https,
                    #[trigger] described[k],
                    placed[k],
                )
        }),
    decreases described.len(),
{
    let frontends = crate::config::cluster::http_frontends(described, env)->Ok_0;
    let (next, placed) = set.with_http_frontends(frontends, timeouts, env)->Ok_0;
    assert(set.https.is_prefix_of(set.https));
    if described.len() > 0 {
        let first = described.drop_last();
        let earlier = crate::config::cluster::http_frontends(first, env)->Ok_0;
        assert(frontends.drop_last() =~= earlier);
        lemma_http_frontends_borrow(set, first, timeouts, env);
        let (middle, before) = set.with_http_frontends(earlier, timeouts, env)->Ok_0;
        lemma_http_frontend_borrows(middle, described.last(), timeouts, env);
        lemma_grows_on(set, middle, next);
        assert forall|a: SocketAddress| #[trigger]
            next.protocol_at(a) is Some <==> set.protocol_at(a) is Some || frontend_at(
                described,
                a,
            ) by {
            lemma_one_more_frontend(described, a);
            assert(middle.protocol_at(a) is Some <==> set.protocol_at(a) is Some || frontend_at(
                first,
                a,
            ));
        }
        assert forall|k: int| 0 <= k < described.len() implies borrows(
            next.https,
            #[trigger] described[k],
            placed[k],
        ) by {
            if k < first.len() {
                assert(borrows(middle.https, first[k], before[k]));
                assert(frontend_at(first, first[k].address));
                assert(middle.protocol_at(first[k].address) is Some);
                lemma_borrowed_stays(middle, next, first[k], before[k]);
            }
        }
    }
}

proof fn lemma_tcp_frontends_add(
    set: ListenerSetModel,
    described: Seq<FileClusterFrontendConfigModel>,
    id: Seq<char>,
    expect_proxy: Seq<SocketAddress>,
    timeouts: Timeouts,
    env: EnvironmentModel,
)
    requires
        set.consistent(),
        crate::config::cluster::tcp_frontends(described, id, expect_proxy) is Ok,
        set.with_tcp_frontends(
            crate::config::cluster::tcp_frontends(described, id, expect_proxy)->Ok_0.1,
            timeouts,
            env,
        ) is Ok,
    ensures
        ({
            let next = set.with_tcp_frontends(
                crate::config::cluster::tcp_frontends(described, id, expect_proxy)->Ok_0.1,
                timeouts,
                env,
            )->Ok_0;
            &&& set.grows_to(next)
            &&& forall|a: SocketAddress| #[trigger]
                next.protocol_at(a) is Some <==> set.protocol_at(a) is Some || frontend_at(
                    described,
                    a,
                )
        }),
    decreases described.len(),
{
    let frontends = crate::config::cluster::tcp_frontends(described, id, expect_proxy)->Ok_0.1;
    let next = set.with_tcp_frontends(frontends, timeouts, env)->Ok_0;
    assert(set.https.is_prefix_of(set.https));
    if described.len() > 0 {
        let first = described.drop_last();
        let earlier = crate::config::cluster::tcp_frontends(first, id, expect_proxy)->Ok_0.1;
        assert(frontends.drop_last() =~= earlier);
        lemma_tcp_frontends_add(set, first, id, expect_proxy, timeouts, env);
        let middle = set.with_tcp_frontends(earlier, timeouts, env)->Ok_0;
        let address = described.last().address;
        assert(frontends.last().address == address);
        assert(middle.https.is_prefix_of(middle.https));
        if middle.protocol_at(address) is None {
            lemma_default_adds(
                middle,
                address,
                FileListenerProtocolConfig::Tcp,
                timeouts,
                env,
                ErrorContextModel::ToTcp,
            );
        }
        lemma_grows_on(set, middle, next);
        assert forall|a: SocketAddress| #[trigger]
            next.protocol_at(a) is Some <==> set.protocol_at(a) is Some || frontend_at(
                described,
                a,
            ) by {
            lemma_one_more_frontend(described, a);
            assert(middle.protocol_at(a) is Some <==> set.protocol_at(a) is Some || frontend_at(
                first,
                a,
            ));
        }
    }
}

/// Finding listeners for one cluster.
proof fn lemma_cluster_borrows(
    set: ListenerSetModel,
    id: Seq<char>,
    described: FileClusterConfigModel,
    timeouts: Timeouts,
    env: EnvironmentModel,
)
    requires
        set.consistent(),
        described.as_cluster(id, set.expect_proxy, env) is Ok,
        set.with_cluster(
            described.as_cluster(id, set.expect_proxy, env)->Ok_0,
            timeouts,
            env,
        ) is Ok,
    ensures
        ({
            let (next, placed) = set.with_cluster(
                described.as_cluster(id, set.expect_proxy, env)->Ok_0,
                timeouts,
                env,
            )->Ok_0;
            &&& set.grows_to(next)
            &&& forall|a: SocketAddress| #[trigger]
                next.protocol_at(a) is Some <==> set.protocol_at(a) is Some || frontend_at(
                    described.frontends,
                    a,
                )
            &&& cluster_borrows(next.https, described, placed)
        }),
{
    match described.protocol {
        FileClusterProtocolConfig::Http => {
            lemma_http_frontends_borrow(set, described.frontends, timeouts, env);
        },
        FileClusterProtocolConfig::Tcp => {
            lemma_tcp_frontends_add(
                set,
                described.frontends,
                id,
                set.expect_proxy,
                timeouts,
                env,
            );
        },
    }
}

proof fn lemma_cluster_borrowed_stays(
    set: ListenerSetModel,
    next: ListenerSetModel,
    described: FileClusterConfigModel,
    placed: ClusterConfigModel,
)
    requires
        set.consistent(),
        set.grows_to(next),
        forall|k: int|
            0 <= k < described.frontends.len() ==> set.protocol_at(
                (#[trigger] described.frontends[k]).address,
            ) is Some,
        cluster_borrows(set.https, described, placed),
    ensures
        cluster_borrows(next.https, described, placed),
{
    if let ClusterConfigModel::Http(http) = placed {
        if described.protocol == FileClusterProtocolConfig::Http {
            assert forall|k: int| 0 <= k < described.frontends.len() implies borrows(
                next.https,
                #[trigger] described.frontends[k],
                http.frontends[k],
            ) by {
                lemma_borrowed_stays(set, next, described.frontends[k], http.frontends[k]);
            }
        }
    }
}

/// The clusters with one more are at its addresses too.
proof fn lemma_one_more_cluster(
    clusters: Seq<(Seq<char>, FileClusterConfigModel)>,
    address: SocketAddress,
)
    requires
        clusters.len() > 0,
    ensures
        cluster_at(clusters, address) <==> cluster_at(clusters.drop_last(), address) || frontend_at(
            clusters.last().1.frontends,
            address,
        ),
{
    let first = clusters.drop_last();
    if cluster_at(first, address) {
        let i = choose|i: int|
            0 <= i < first.len() && frontend_at((#[trigger] first[i]).1.frontends, address);
        assert(frontend_at(clusters[i].1.frontends, address));
    }
    if frontend_at(clusters.last().1.frontends, address) {
        assert(frontend_at(clusters[clusters.len() - 1].1.frontends, address));
    }
    if cluster_at(clusters, address) && !frontend_at(clusters.last().1.frontends, address) {
        let i = choose|i: int|
            0 <= i < clusters.len() && frontend_at((#[trigger] clusters[i]).1.frontends, address);
        assert(frontend_at(first[i].1.frontends, address));
    }
}

proof fn lemma_clusters_borrow(
    set: ListenerSetModel,
    clusters: Seq<(Seq<char>, FileClusterConfigModel)>,
    timeouts: Timeouts,
    env: EnvironmentModel,
)
    requires
        set.consistent(),
        set.with_clusters(clusters, timeouts, env) is Ok,
    ensures
        ({
            let (next, placed) = set.with_clusters(clusters, timeouts, env)->Ok_0;
            &&& set.grows_to(next)
            &&& placed.len() == clusters.len()
            &&& forall|a: SocketAddress| #[trigger]
                next.protocol_at(a) is Some <==> set.protocol_at(a) is Some || cluster_at(
                    clusters,
                    a,
                )
            &&& forall|i: int|
                0 <= i < clusters.len() ==> cluster_borrows(
                    next.https,
                    (#[trigger] clusters[i]).1,
                    placed[i].1,
                )
        }),
    decreases clusters.len(),
{
    let (next, placed) = set.with_clusters(clusters, timeouts, env)->Ok_0;
    assert(set.https.is_prefix_of(set.https));
    if clusters.len() > 0 {
        let first = clusters.drop_last();
        lemma_clusters_borrow(set, first, timeouts, env);
        let (middle, before) = set.with_clusters(first, timeouts, env)->Ok_0;
        let (id, described) = clusters.last();
        lemma_cluster_borrows(middle, id, described, timeouts, env);
        lemma_grows_on(set, middle, next);
        assert forall|a: SocketAddress| #[trigger]
            next.protocol_at(a) is Some <==> set.protocol_at(a) is Some || cluster_at(
                clusters,
                a,
            ) by {
            lemma_one_more_cluster(clusters, a);
            assert(middle.protocol_at(a) is Some <==> set.protocol_at(a) is Some || cluster_at(
                first,
                a,
            ));
        }
        assert forall|i: int| 0 <= i < clusters.len() implies cluster_borrows(
            next.https,
            (#[trigger] clusters[i]).1,
            placed[i].1,
        ) by {
            if i < first.len() {
                assert(cluster_borrows(middle.https, first[i].1, before[i].1));
                assert forall|k: int| 0 <= k < first[i].1.frontends.len() implies middle.protocol_at(
                    (#[trigger] first[i].1.frontends[k]).address,
                ) is Some by {
                    let address = first[i].1.frontends[k].address;
                    assert(frontend_at(first[i].1.frontends, address));
                    assert(cluster_at(first, address));
                }
                lemma_cluster_borrowed_stays(middle, next, first[i].1, before[i].1);
            }
        }
    }
}

/// The addresses of all listeners of an accepted configuration are exactly those of the file's
/// listeners and of the frontends of its clusters together.
pub proof fn law_addresses_are_those_of_the_file(
    file: FileConfigModel,
    config_path: Seq<char>,
    env: EnvironmentModel,
    address: SocketAddress,
)
    ensures
        file.as_config(config_path, env) matches Ok(config) ==> {
            let listeners = crate::config::assembly::or_default(file.listeners, Seq::empty());
            let clusters = crate::config::assembly::or_default(file.clusters, Seq::empty());
            (super::laws::http_at(config.http_listeners, address) || super::laws::https_at(
                config.https_listeners,
                address,
            ) || super::laws::tcp_at(config.tcp_listeners, address)) <==> (
            crate::config::check::addresses(listeners).contains(address) || cluster_at(
                clusters,
                address,
            ))
        },
{
    if file.as_config(config_path, env) is Ok {
        let listeners = crate::config::assembly::or_default(file.listeners, Seq::empty());
        let clusters = crate::config::assembly::or_default(file.clusters, Seq::empty());
        super::laws::lemma_from_listeners(listeners, file.timeouts(), env);
        super::laws::lemma_known_addresses(listeners, file.timeouts(), env, address);
        let set = ListenerSetModel::from_listeners(listeners, file.timeouts(), env)->Ok_0;
        lemma_clusters_borrow(set, clusters, file.timeouts(), env);
        let next = file.placed(env)->Ok_0.0;
        assert(next.protocol_at(address) is Some <==> set.protocol_at(address) is Some
            || cluster_at(clusters, address));
        match next.protocol_at(address) {
            Some(FileListenerProtocolConfig::Http) => {
                assert(super::laws::http_at(next.http, address));
            },
            Some(FileListenerProtocolConfig::Https) => {
                assert(super::laws::https_at(next.https, address));
            },
            Some(FileListenerProtocolConfig::Tcp) => {
                assert(super::laws::tcp_at(next.tcp, address));
            },
            None => {
                assert(!super::laws::http_at(next.http, address));
                assert(!super::laws::https_at(next.https, address));
                assert(!super::laws::tcp_at(next.tcp, address));
            },
        }
    }
}

/// In an accepted configuration, an HTTP frontend that the file describes without certificate, on the
/// address of an HTTPS listener, has that listener's certificate, chain and key.
pub proof fn law_listener_lends_its_certificate(
    file: FileConfigModel,
    config_path: Seq<char>,
    env: EnvironmentModel,
    i: int,
    k: int,
    j: int,
)
    requires
        ({
            let clusters = crate::config::assembly::or_default(file.clusters, Seq::empty());
            &&& 0 <= i < clusters.len()
            &&& clusters[i].1.protocol == FileClusterProtocolConfig::Http
            &&& 0 <= k < clusters[i].1.frontends.len()
            &&& clusters[i].1.frontends[k].certificate is None
        }),
    ensures
        file.as_config(config_path, env) matches Ok(config) ==> {
            let clusters = crate::config::assembly::or_default(file.clusters, Seq::empty());
            let https = config.https_listeners;
            0 <= j < https.len() && https[j].address == clusters[i].1.frontends[k].address
                ==> match config.clusters[i].1 {
                ClusterConfigModel::Http(http) => {
                    &&& k < http.frontends.len()
                    &&& https[j].certificate is Some
                    &&& http.frontends[k].certificate == https[j].certificate
                    &&& http.frontends[k].certificate_chain == Some(https[j].certificate_chain)
                    &&& http.frontends[k].key == https[j].key
                },
                ClusterConfigModel::Tcp(_) => false,
            }
        },
{
    if file.as_config(config_path, env) is Ok {
        let listeners = crate::config::assembly::or_default(file.listeners, Seq::empty());
        let clusters = crate::config::assembly::or_default(file.clusters, Seq::empty());
        super::laws::lemma_from_listeners(listeners, file.timeouts(), env);
        let set = ListenerSetModel::from_listeners(listeners, file.timeouts(), env)->Ok_0;
        lemma_clusters_borrow(set, clusters, file.timeouts(), env);
        let (next, placed) = file.placed(env)->Ok_0;
        assert(cluster_borrows(next.https, clusters[i].1, placed[i].1));
        if let ClusterConfigModel::Http(http) = placed[i].1 {
            assert(borrows(next.https, clusters[i].1.frontends[k], http.frontends[k]));
        }
    }
}

} // verus!
