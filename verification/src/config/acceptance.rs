//! Which configuration files are accepted.
use vstd::prelude::*;

use crate::address::SocketAddress;
use crate::proxy::HttpsListenerConfigModel;

use super::assembly::{ListenerSetModel, Timeouts};
use super::environment::{EnvironmentModel, LoadedFileModel};
use super::error::{ErrorCauseModel, ErrorContextModel};
use super::types::{
    FileClusterConfigModel, FileClusterFrontendConfigModel, FileClusterProtocolConfig,
    FileConfigModel, FileListenerProtocolConfig, ListenerModel,
};

verus! {

/// A file under this path was read.
pub open spec fn was_read(files: Seq<LoadedFileModel>, path: Seq<char>) -> bool {
    exists|text: Seq<char>| #[trigger] super::described::holds(files, path, text)
}

/// Nothing is named, or it was read.
pub open spec fn is_readable(files: Seq<LoadedFileModel>, path: Option<Seq<char>>) -> bool {
    path matches Some(path) ==> was_read(files, path)
}

/// The listener of the file can be had for itself: it does not expect a header where it has a public
/// address, and the answers that it names were read.
pub open spec fn is_fine(listener: ListenerModel, files: Seq<LoadedFileModel>) -> bool {
    &&& listener.public_address is None || listener.expect_proxy != Some(true)
    &&& listener.protocol != FileListenerProtocolConfig::Tcp ==> is_readable(
        files,
        listener.answer_404,
    ) && is_readable(files, listener.answer_503)
}

/// The listeners of the file can be had, and no two are at one address.
pub open spec fn listeners_are_fine(
    listeners: Seq<ListenerModel>,
    files: Seq<LoadedFileModel>,
) -> bool {
    &&& forall|i: int| 0 <= i < listeners.len() ==> is_fine(#[trigger] listeners[i], files)
    &&& forall|i: int, j: int|
        0 <= i < j < listeners.len() ==> (#[trigger] listeners[i]).address != (
        #[trigger] listeners[j]).address
}

/// A frontend of an HTTP cluster has a hostname, and the files that it names were read.
pub open spec fn is_http_frontend(
    frontend: FileClusterFrontendConfigModel,
    files: Seq<LoadedFileModel>,
) -> bool {
    &&& frontend.hostname is Some
    &&& is_readable(files, frontend.key)
    &&& is_readable(files, frontend.certificate)
    &&& is_readable(files, frontend.certificate_chain)
}

/// A frontend of a TCP cluster has none of what only an HTTP frontend can use.
pub open spec fn is_tcp_frontend(frontend: FileClusterFrontendConfigModel) -> bool {
    &&& frontend.hostname is None
    &&& frontend.path is None
    &&& frontend.certificate is None
    &&& frontend.certificate_chain is None
}

/// The cluster can be had for itself; the listeners at the frontends of a TCP cluster all expect a
/// header, or none of them does.
pub open spec fn cluster_is_fine(
    cluster: FileClusterConfigModel,
    listeners: Seq<ListenerModel>,
    files: Seq<LoadedFileModel>,
) -> bool {
    let frontends = cluster.frontends;
    match cluster.protocol {
        FileClusterProtocolConfig::Http => forall|k: int|
            0 <= k < frontends.len() ==> is_http_frontend(#[trigger] frontends[k], files),
        FileClusterProtocolConfig::Tcp => {
            &&& forall|k: int|
                0 <= k < frontends.len() ==> is_tcp_frontend(#[trigger] frontends[k])
            &&& forall|j: int, k: int|
                0 <= j < k < frontends.len() ==> (super::described::expects_header(
                    listeners,
                    (#[trigger] frontends[j]).address,
                ) <==> super::described::expects_header(
                    listeners,
                    (#[trigger] frontends[k]).address,
                ))
        },
    }
}

/// A frontend, and what its cluster speaks.
pub type Described = (FileClusterProtocolConfig, FileClusterFrontendConfigModel);

/// What a listener that is there for this frontend alone has to speak.
pub open spec fn wanted(frontend: Described) -> FileListenerProtocolConfig {
    match frontend.0 {
        FileClusterProtocolConfig::Tcp => FileListenerProtocolConfig::Tcp,
        FileClusterProtocolConfig::Http => if frontend.1.certificate is Some {
            FileListenerProtocolConfig::Https
        } else {
            FileListenerProtocolConfig::Http
        },
    }
}

/// The listener of the file can serve the frontend: it speaks what is wanted, or is an HTTPS listener
/// that lends its certificate.
pub open spec fn may_serve(
    listener: ListenerModel,
    frontend: Described,
    files: Seq<LoadedFileModel>,
) -> bool {
    ||| listener.protocol == wanted(frontend)
    ||| listener.protocol == FileListenerProtocolConfig::Https && wanted(frontend)
        == FileListenerProtocolConfig::Http && (listener.certificate matches Some(path) && was_read(
        files,
        path,
    ))
}

/// A listener of the file is at `address`.
pub open spec fn listed(listeners: Seq<ListenerModel>, address: SocketAddress) -> bool {
    exists|l: int| 0 <= l < listeners.len() && (#[trigger] listeners[l]).address == address
}

/// Every frontend is served by the listener of the file at its address; where there is none, all
/// frontends at the address want the same of it.
pub open spec fn frontends_fit(
    listeners: Seq<ListenerModel>,
    frontends: Seq<Described>,
    files: Seq<LoadedFileModel>,
) -> bool {
    &&& forall|i: int, l: int|
        0 <= i < frontends.len() && 0 <= l < listeners.len() && (
        #[trigger] listeners[l]).address == (#[trigger] frontends[i]).1.address ==> may_serve(
            listeners[l],
            frontends[i],
            files,
        )
    &&& forall|i: int, j: int|
        0 <= i < j < frontends.len() && (#[trigger] frontends[i]).1.address == (
        #[trigger] frontends[j]).1.address && !listed(listeners, frontends[i].1.address)
            ==> wanted(frontends[i]) == wanted(frontends[j])
}

/// The frontends of a cluster.
pub open spec fn described_by(cluster: FileClusterConfigModel) -> Seq<Described> {
    Seq::new(cluster.frontends.len(), |k: int| (cluster.protocol, cluster.frontends[k]))
}

/// The frontends of all clusters.
pub open spec fn all_described(clusters: Seq<(Seq<char>, FileClusterConfigModel)>) -> Seq<Described>
    decreases clusters.len(),
{
    if clusters.len() == 0 {
        Seq::empty()
    } else {
        all_described(clusters.drop_last()) + described_by(clusters.last().1)
    }
}

/// One more frontend fits to those before it.
spec fn one_more_fits(
    listeners: Seq<ListenerModel>,
    frontends: Seq<Described>,
    frontend: Described,
    files: Seq<LoadedFileModel>,
) -> bool {
    &&& forall|l: int|
        0 <= l < listeners.len() && (#[trigger] listeners[l]).address == frontend.1.address
            ==> may_serve(listeners[l], frontend, files)
    &&& !listed(listeners, frontend.1.address) ==> forall|i: int|
        0 <= i < frontends.len() && (#[trigger] frontends[i]).1.address == frontend.1.address
            ==> wanted(frontends[i]) == wanted(frontend)
}

proof fn lemma_one_more_fits(
    listeners: Seq<ListenerModel>,
    frontends: Seq<Described>,
    frontend: Described,
    files: Seq<LoadedFileModel>,
)
    ensures
        frontends_fit(listeners, frontends.push(frontend), files) <==> frontends_fit(
            listeners,
            frontends,
            files,
        ) && one_more_fits(listeners, frontends, frontend, files),
{
    let all = frontends.push(frontend);
    let n = frontends.len() as int;
    assert(all[n] == frontend);
    if frontends_fit(listeners, all, files) {
        assert forall|i: int, l: int|
            0 <= i < frontends.len() && 0 <= l < listeners.len() && (
            #[trigger] listeners[l]).address == (#[trigger] frontends[i]).1.address implies may_serve(
            listeners[l],
            frontends[i],
            files,
        ) by {
            assert(all[i] == frontends[i]);
        }
        assert forall|i: int, j: int|
            0 <= i < j < frontends.len() && (#[trigger] frontends[i]).1.address == (
            #[trigger] frontends[j]).1.address && !listed(
                listeners,
                frontends[i].1.address,
            ) implies wanted(frontends[i]) == wanted(frontends[j]) by {
            assert(all[i] == frontends[i] && all[j] == frontends[j]);
        }
        assert forall|l: int|
            0 <= l < listeners.len() && (#[trigger] listeners[l]).address
                == frontend.1.address implies may_serve(listeners[l], frontend, files) by {
            assert(listeners[l].address == all[n].1.address);
        }
        if !listed(listeners, frontend.1.address) {
            assert forall|i: int|
                0 <= i < frontends.len() && (#[trigger] frontends[i]).1.address
                    == frontend.1.address implies wanted(frontends[i]) == wanted(frontend) by {
                assert(all[i] == frontends[i]);
                assert(all[i].1.address == all[n].1.address);
            }
        }
    }
    if frontends_fit(listeners, frontends, files) && one_more_fits(
        listeners,
        frontends,
        frontend,
        files,
    ) {
        assert forall|i: int, l: int|
            0 <= i < all.len() && 0 <= l < listeners.len() && (#[trigger] listeners[l]).address == (
            #[trigger] all[i]).1.address implies may_serve(listeners[l], all[i], files) by {
            if i < n {
                assert(all[i] == frontends[i]);
            }
        }
        assert forall|i: int, j: int|
            0 <= i < j < all.len() && (#[trigger] all[i]).1.address == (
            #[trigger] all[j]).1.address && !listed(listeners, all[i].1.address) implies wanted(
            all[i],
        ) == wanted(all[j]) by {
            assert(all[i] == frontends[i]);
            if j < n {
                assert(all[j] == frontends[j]);
            }
        }
    }
}

/// What the listeners that were found say of the file.
#[verifier::opaque]
spec fn knows(
    set: ListenerSetModel,
    listeners: Seq<ListenerModel>,
    frontends: Seq<Described>,
    files: Seq<LoadedFileModel>,
) -> bool {
    &&& forall|l: int|
        0 <= l < listeners.len() ==> {
            let listener = #[trigger] listeners[l];
            &&& set.protocol_at(listener.address) == Some(listener.protocol)
            &&& super::assembly::certified(set.https, listener.address) is Some <==> (
            listener.protocol == FileListenerProtocolConfig::Https && (
            listener.certificate matches Some(path) && was_read(files, path)))
        }
    &&& forall|i: int|
        0 <= i < frontends.len() && !listed(listeners, (#[trigger] frontends[i]).1.address) ==> {
            &&& set.protocol_at(frontends[i].1.address) == Some(wanted(frontends[i]))
            &&& super::assembly::certified(set.https, frontends[i].1.address) is None
        }
    &&& forall|a: SocketAddress| #[trigger]
        set.protocol_at(a) is Some ==> listed(listeners, a) || exists|i: int|
            0 <= i < frontends.len() && (#[trigger] frontends[i]).1.address == a
    &&& forall|a: SocketAddress|
        (#[trigger] super::assembly::certified(set.https, a)) is Some ==> set.protocol_at(a) is Some
    &&& forall|a: SocketAddress| #[trigger]
        set.expect_proxy.contains(a) <==> super::described::expects_header(listeners, a)
}

proof fn lemma_certified_push(
    https: Seq<HttpsListenerConfigModel>,
    listener: HttpsListenerConfigModel,
    address: SocketAddress,
)
    ensures
        super::assembly::certified(https.push(listener), address) is Some
            <==> super::assembly::certified(https, address) is Some || (listener.address == address
            && listener.certificate is Some),
    decreases https.len(),
{
    let all = https.push(listener);
    if https.len() == 0 {
        assert(all.drop_first() =~= https);
    } else {
        assert(all.drop_first() =~= https.drop_first().push(listener));
        lemma_certified_push(https.drop_first(), listener, address);
    }
}

/// What is read of a file is its text.
proof fn lemma_was_read(files: Seq<LoadedFileModel>, path: Seq<char>)
    ensures
        super::environment::file_at(files, path) is Text <==> was_read(files, path),
{
    super::described::lemma_file_at(files, path);
}

proof fn lemma_readable(files: Seq<LoadedFileModel>, path: Option<Seq<char>>)
    ensures
        path matches Some(p) ==> (super::environment::file_at(files, p) is Text <==> was_read(
            files,
            p,
        )),
        super::environment::text_at(files, path) is Some <==> path is Some && is_readable(
            files,
            path,
        ),
{
    if let Some(p) = path {
        lemma_was_read(files, p);
    }
}

proof fn lemma_listeners_accepted(
    listeners: Seq<ListenerModel>,
    file: FileConfigModel,
    env: EnvironmentModel,
)
    ensures
        ({
            let set = ListenerSetModel::from_listeners(listeners, file.timeouts(), env);
            &&& set is Ok <==> listeners_are_fine(listeners, env.files)
            &&& set is Ok ==> knows(set->Ok_0, listeners, Seq::empty(), env.files)
        }),
    decreases listeners.len(),
{
    reveal(knows);
    let t = file.timeouts();
    let set = ListenerSetModel::from_listeners(listeners, t, env);
    let none = Seq::<Described>::empty();
    if listeners.len() == 0 {
        let next = set->Ok_0;
        assert(set is Ok);
        assert(forall|a: SocketAddress| #[trigger] next.protocol_at(a) is None);
        assert(forall|a: SocketAddress|
            (#[trigger] super::assembly::certified(next.https, a)) is None);
    } else {
        let first = listeners.drop_last();
        let last = listeners.last();
        let n = first.len() as int;
        lemma_listeners_accepted(first, file, env);
        let before = ListenerSetModel::from_listeners(first, t, env);
        lemma_readable(env.files, last.answer_404);
        lemma_readable(env.files, last.answer_503);
        lemma_readable(env.files, last.certificate);
        assert(listeners[n] == last);
        if listeners_are_fine(listeners, env.files) {
            assert forall|i: int| 0 <= i < first.len() implies is_fine(
                #[trigger] first[i],
                env.files,
            ) by {
                assert(listeners[i] == first[i]);
            }
            assert forall|i: int, j: int| 0 <= i < j < first.len() implies (
            #[trigger] first[i]).address != (#[trigger] first[j]).address by {
                assert(listeners[i] == first[i] && listeners[j] == first[j]);
            }
        }
        if before is Ok {
            let old = before->Ok_0;
            if listed(first, last.address) {
                let l = choose|l: int|
                    0 <= l < first.len() && (#[trigger] first[l]).address == last.address;
                assert(old.protocol_at(first[l].address) is Some);
                assert(listeners[l] == first[l]);
                assert(listeners[l].address == listeners[n].address);
                assert(!listeners_are_fine(listeners, env.files));
                assert(set is Err);
            } else {
                assert(old.protocol_at(last.address) is None);
                if is_fine(last, env.files) {
                    assert(set is Ok);
                    assert forall|i: int| 0 <= i < listeners.len() implies is_fine(
                        #[trigger] listeners[i],
                        env.files,
                    ) by {
                        if i < n {
                            assert(first[i] == listeners[i]);
                        }
                    }
                    assert forall|i: int, j: int| 0 <= i < j < listeners.len() implies (
                    #[trigger] listeners[i]).address != (#[trigger] listeners[j]).address by {
                        assert(first[i] == listeners[i]);
                        if j < n {
                            assert(first[j] == listeners[j]);
                        }
                    }
                } else {
                    assert(set is Err);
                    assert(!listeners_are_fine(listeners, env.files));
                }
            }
        }
        if set is Ok {
            let old = before->Ok_0;
            let next = set->Ok_0;
            assert(next.known.drop_last() =~= old.known);
            assert(old.protocol_at(last.address) is None);
            super::described::lemma_listeners(listeners, file, env);
            assert forall|a: SocketAddress| #[trigger]
                next.protocol_at(a) == if a == last.address {
                    Some(last.protocol)
                } else {
                    old.protocol_at(a)
                } by {}
            assert forall|a: SocketAddress|
                (#[trigger] super::assembly::certified(next.https, a)) is Some
                    <==> super::assembly::certified(old.https, a) is Some || (last.address == a
                    && last.protocol == FileListenerProtocolConfig::Https && (
                last.certificate matches Some(path) && was_read(env.files, path))) by {
                if last.protocol == FileListenerProtocolConfig::Https {
                    let https = next.https.last();
                    assert(next.https =~= old.https.push(https));
                    lemma_certified_push(old.https, https, a);
                }
            }
            assert forall|l: int| 0 <= l < listeners.len() implies {
                let listener = #[trigger] listeners[l];
                &&& next.protocol_at(listener.address) == Some(listener.protocol)
                &&& super::assembly::certified(next.https, listener.address) is Some <==> (
                listener.protocol == FileListenerProtocolConfig::Https && (
                listener.certificate matches Some(path) && was_read(env.files, path)))
            } by {
                if l < n {
                    assert(first[l] == listeners[l]);
                    assert(old.protocol_at(first[l].address) == Some(first[l].protocol));
                } else {
                    assert(super::assembly::certified(old.https, last.address) is Some
                        ==> old.protocol_at(last.address) is Some);
                }
            }
            assert forall|a: SocketAddress| #[trigger] next.protocol_at(a) is Some implies listed(
                listeners,
                a,
            ) by {
                if a == last.address {
                    assert(listeners[n].address == a);
                } else {
                    assert(old.protocol_at(a) is Some);
                    let l = choose|l: int|
                        0 <= l < first.len() && (#[trigger] first[l]).address == a;
                    assert(listeners[l] == first[l]);
                }
            }
            assert forall|a: SocketAddress|
                (#[trigger] super::assembly::certified(
                    next.https,
                    a,
                )) is Some implies next.protocol_at(a) is Some by {
                if super::assembly::certified(old.https, a) is Some {
                    assert(old.protocol_at(a) is Some);
                }
            }
        }
    }
}

/// A listener without options can always be had, and has no certificate.
proof fn lemma_default_is_there(
    set: ListenerSetModel,
    address: SocketAddress,
    protocol: FileListenerProtocolConfig,
    timeouts: Timeouts,
    env: EnvironmentModel,
    context: ErrorContextModel,
)
    ensures
        set.with_default(address, protocol, timeouts, env, context) is Ok,
        ({
            let next = set.with_default(address, protocol, timeouts, env, context)->Ok_0;
            &&& next.expect_proxy == set.expect_proxy
            &&& forall|a: SocketAddress| #[trigger]
                next.protocol_at(a) == if a == address {
                    Some(protocol)
                } else {
                    set.protocol_at(a)
                }
            &&& forall|a: SocketAddress|
                (#[trigger] super::assembly::certified(next.https, a)) is Some
                    <==> super::assembly::certified(set.https, a) is Some
        }),
{
    let next = set.with_default(address, protocol, timeouts, env, context)->Ok_0;
    assert(next.known.drop_last() =~= set.known);
    assert forall|a: SocketAddress|
        (#[trigger] super::assembly::certified(next.https, a)) is Some
            <==> super::assembly::certified(set.https, a) is Some by {
        if protocol == FileListenerProtocolConfig::Https {
            let https = next.https.last();
            assert(next.https =~= set.https.push(https));
            lemma_certified_push(set.https, https, a);
        }
    }
}

/// What is known where one more frontend was placed.
proof fn lemma_known_with_one_more(
    set: ListenerSetModel,
    next: ListenerSetModel,
    listeners: Seq<ListenerModel>,
    frontends: Seq<Described>,
    frontend: Described,
    files: Seq<LoadedFileModel>,
)
    requires
        knows(set, listeners, frontends, files),
        one_more_fits(listeners, frontends, frontend, files),
        next.expect_proxy == set.expect_proxy,
        forall|a: SocketAddress| #[trigger]
            next.protocol_at(a) == if a == frontend.1.address && set.protocol_at(a) is None {
                Some(wanted(frontend))
            } else {
                set.protocol_at(a)
            },
        forall|a: SocketAddress|
            (#[trigger] super::assembly::certified(next.https, a)) is Some
                <==> super::assembly::certified(set.https, a) is Some,
    ensures
        knows(next, listeners, frontends.push(frontend), files),
{
    reveal(knows);
    let all = frontends.push(frontend);
    let n = frontends.len() as int;
    let address = frontend.1.address;
    assert(all[n] == frontend);
    assert forall|i: int|
        0 <= i < all.len() && !listed(listeners, (#[trigger] all[i]).1.address) implies {
        &&& next.protocol_at(all[i].1.address) == Some(wanted(all[i]))
        &&& super::assembly::certified(next.https, all[i].1.address) is None
    } by {
        if i < n {
            assert(all[i] == frontends[i]);
            assert(set.protocol_at(frontends[i].1.address) == Some(wanted(frontends[i])));
        } else if set.protocol_at(address) is Some {
            let k = choose|k: int|
                0 <= k < frontends.len() && (#[trigger] frontends[k]).1.address == address;
            assert(set.protocol_at(frontends[k].1.address) == Some(wanted(frontends[k])));
        } else {
            assert(super::assembly::certified(set.https, address) is Some ==> set.protocol_at(
                address,
            ) is Some);
        }
    }
    assert forall|a: SocketAddress| #[trigger] next.protocol_at(a) is Some implies listed(
        listeners,
        a,
    ) || exists|i: int| 0 <= i < all.len() && (#[trigger] all[i]).1.address == a by {
        if set.protocol_at(a) is Some {
            if !listed(listeners, a) {
                let k = choose|k: int|
                    0 <= k < frontends.len() && (#[trigger] frontends[k]).1.address == a;
                assert(all[k].1.address == a);
            }
        } else {
            assert(all[n].1.address == a);
        }
    }
    assert forall|a: SocketAddress|
        (#[trigger] super::assembly::certified(next.https, a)) is Some implies next.protocol_at(
        a,
    ) is Some by {
        assert(super::assembly::certified(set.https, a) is Some);
        assert(set.protocol_at(a) is Some);
    }
    assert forall|l: int| 0 <= l < listeners.len() implies {
        let listener = #[trigger] listeners[l];
        &&& next.protocol_at(listener.address) == Some(listener.protocol)
        &&& super::assembly::certified(next.https, listener.address) is Some <==> (
        listener.protocol == FileListenerProtocolConfig::Https && (
        listener.certificate matches Some(path) && was_read(files, path)))
    } by {
        assert(set.protocol_at(listeners[l].address) == Some(listeners[l].protocol));
    }
}

proof fn lemma_http_frontend_accepted(
    set: ListenerSetModel,
    listeners: Seq<ListenerModel>,
    frontends: Seq<Described>,
    described: FileClusterFrontendConfigModel,
    timeouts: Timeouts,
    env: EnvironmentModel,
)
    requires
        knows(set, listeners, frontends, env.files),
        described.as_http(env) is Ok,
    ensures
        ({
            let frontend = (FileClusterProtocolConfig::Http, described);
            let placed = set.with_http_frontend(described.as_http(env)->Ok_0, timeouts, env);
            &&& placed is Ok <==> one_more_fits(listeners, frontends, frontend, env.files)
            &&& placed is Ok ==> knows(
                placed->Ok_0.0,
                listeners,
                frontends.push(frontend),
                env.files,
            )
        }),
{
    reveal(knows);
    let frontend = (FileClusterProtocolConfig::Http, described);
    let address = described.address;
    let converted = described.as_http(env)->Ok_0;
    let placed = set.with_http_frontend(converted, timeouts, env);
    lemma_readable(env.files, described.certificate);
    assert(converted.certificate is Some <==> described.certificate is Some);
    assert(converted.address == address);
    if listed(listeners, address) {
        let l = choose|l: int|
            0 <= l < listeners.len() && (#[trigger] listeners[l]).address == address;
        assert(set.protocol_at(listeners[l].address) == Some(listeners[l].protocol));
        assert(placed is Ok <==> may_serve(listeners[l], frontend, env.files));
        if placed is Ok {
            assert forall|m: int|
                0 <= m < listeners.len() && (#[trigger] listeners[m]).address
                    == address implies may_serve(listeners[m], frontend, env.files) by {
                assert(set.protocol_at(listeners[m].address) == Some(listeners[m].protocol));
            }
        }
    } else if set.protocol_at(address) is Some {
        let k = choose|k: int|
            0 <= k < frontends.len() && (#[trigger] frontends[k]).1.address == address;
        assert(set.protocol_at(frontends[k].1.address) == Some(wanted(frontends[k])));
        assert(placed is Ok <==> wanted(frontends[k]) == wanted(frontend));
        if placed is Ok {
            assert forall|i: int|
                0 <= i < frontends.len() && (#[trigger] frontends[i]).1.address
                    == address implies wanted(frontends[i]) == wanted(frontend) by {
                assert(set.protocol_at(frontends[i].1.address) == Some(wanted(frontends[i])));
            }
        }
    } else {
        lemma_default_is_there(
            set,
            address,
            FileListenerProtocolConfig::Https,
            timeouts,
            env,
            ErrorContextModel::ToTls,
        );
        lemma_default_is_there(
            set,
            address,
            FileListenerProtocolConfig::Http,
            timeouts,
            env,
            ErrorContextModel::ToHttp,
        );
        assert forall|i: int|
            0 <= i < frontends.len() && (#[trigger] frontends[i]).1.address
                == address implies wanted(frontends[i]) == wanted(frontend) by {
            assert(set.protocol_at(frontends[i].1.address) is Some);
        }
        assert(placed is Ok);
    }
    if placed is Ok {
        lemma_known_with_one_more(
            set,
            placed->Ok_0.0,
            listeners,
            frontends,
            frontend,
            env.files,
        );
    }
}

proof fn lemma_tcp_frontend_accepted(
    set: ListenerSetModel,
    listeners: Seq<ListenerModel>,
    frontends: Seq<Described>,
    described: FileClusterFrontendConfigModel,
    timeouts: Timeouts,
    env: EnvironmentModel,
)
    requires
        knows(set, listeners, frontends, env.files),
    ensures
        ({
            let frontend = (FileClusterProtocolConfig::Tcp, described);
            let placed = set.with_tcp_frontend(described.address, timeouts, env);
            &&& placed is Ok <==> one_more_fits(listeners, frontends, frontend, env.files)
            &&& placed is Ok ==> knows(
                placed->Ok_0,
                listeners,
                frontends.push(frontend),
                env.files,
            )
        }),
{
    reveal(knows);
    let frontend = (FileClusterProtocolConfig::Tcp, described);
    let address = described.address;
    let placed = set.with_tcp_frontend(address, timeouts, env);
    if listed(listeners, address) {
        let l = choose|l: int|
            0 <= l < listeners.len() && (#[trigger] listeners[l]).address == address;
        assert(set.protocol_at(listeners[l].address) == Some(listeners[l].protocol));
        assert(placed is Ok <==> may_serve(listeners[l], frontend, env.files));
        if placed is Ok {
            assert forall|m: int|
                0 <= m < listeners.len() && (#[trigger] listeners[m]).address
                    == address implies may_serve(listeners[m], frontend, env.files) by {
                assert(set.protocol_at(listeners[m].address) == Some(listeners[m].protocol));
            }
        }
    } else if set.protocol_at(address) is Some {
        let k = choose|k: int|
            0 <= k < frontends.len() && (#[trigger] frontends[k]).1.address == address;
        assert(set.protocol_at(frontends[k].1.address) == Some(wanted(frontends[k])));
        assert(placed is Ok <==> wanted(frontends[k]) == wanted(frontend));
        if placed is Ok {
            assert forall|i: int|
                0 <= i < frontends.len() && (#[trigger] frontends[i]).1.address
                    == address implies wanted(frontends[i]) == wanted(frontend) by {
                assert(set.protocol_at(frontends[i].1.address) == Some(wanted(frontends[i])));
            }
        }
    } else {
        lemma_default_is_there(
            set,
            address,
            FileListenerProtocolConfig::Tcp,
            timeouts,
            env,
            ErrorContextModel::ToTcp,
        );
        assert forall|i: int|
            0 <= i < frontends.len() && (#[trigger] frontends[i]).1.address
                == address implies wanted(frontends[i]) == wanted(frontend) by {
            assert(set.protocol_at(frontends[i].1.address) is Some);
        }
        assert(placed is Ok);
    }
    if placed is Ok {
        lemma_known_with_one_more(set, placed->Ok_0, listeners, frontends, frontend, env.files);
    }
}

/// What the frontends of an HTTP cluster need for themselves.
proof fn lemma_http_shapes(described: Seq<FileClusterFrontendConfigModel>, env: EnvironmentModel)
    ensures
        ({
            let frontends = super::cluster::http_frontends(described, env);
            &&& frontends is Ok <==> forall|k: int|
                0 <= k < described.len() ==> is_http_frontend(#[trigger] described[k], env.files)
            &&& frontends matches Ok(frontends) ==> frontends.len() == described.len()
        }),
    decreases described.len(),
{
    if described.len() > 0 {
        let first = described.drop_last();
        let last = described.last();
        lemma_http_shapes(first, env);
        lemma_readable(env.files, last.key);
        lemma_readable(env.files, last.certificate);
        lemma_readable(env.files, last.certificate_chain);
        assert(last.as_http(env) is Ok <==> is_http_frontend(last, env.files));
        assert(described[described.len() - 1] == last);
        assert((forall|k: int|
            0 <= k < described.len() ==> is_http_frontend(#[trigger] described[k], env.files)) ==> (
        forall|k: int|
            0 <= k < first.len() ==> is_http_frontend(#[trigger] first[k], env.files))) by {
            assert(forall|k: int| 0 <= k < first.len() ==> #[trigger] first[k] == described[k]);
        }
        if (forall|k: int|
            0 <= k < first.len() ==> is_http_frontend(#[trigger] first[k], env.files))
            && is_http_frontend(last, env.files) {
            assert forall|k: int| 0 <= k < described.len() implies is_http_frontend(
                #[trigger] described[k],
                env.files,
            ) by {
                if k < first.len() {
                    assert(first[k] == described[k]);
                }
            }
        }
    }
}

/// The frontends of a TCP cluster are of its kind, and their listeners agree on the header.
spec fn tcp_shapes(described: Seq<FileClusterFrontendConfigModel>, listeners: Seq<ListenerModel>) -> bool {
    &&& forall|k: int| 0 <= k < described.len() ==> is_tcp_frontend(#[trigger] described[k])
    &&& forall|j: int, k: int|
        0 <= j < k < described.len() ==> (super::described::expects_header(
            listeners,
            (#[trigger] described[j]).address,
        ) <==> super::described::expects_header(listeners, (#[trigger] described[k]).address))
}

proof fn lemma_tcp_shapes(
    described: Seq<FileClusterFrontendConfigModel>,
    id: Seq<char>,
    expect_proxy: Seq<SocketAddress>,
    listeners: Seq<ListenerModel>,
)
    requires
        forall|a: SocketAddress| #[trigger]
            expect_proxy.contains(a) <==> super::described::expects_header(listeners, a),
    ensures
        ({
            let frontends = super::cluster::tcp_frontends(described, id, expect_proxy);
            &&& frontends is Ok <==> tcp_shapes(described, listeners)
            &&& frontends matches Ok((expected, placed)) ==> {
                &&& placed.len() == described.len()
                &&& described.len() > 0 ==> expected == Some(
                    super::described::expects_header(listeners, described[0].address),
                )
                &&& described.len() == 0 ==> expected is None
                &&& forall|k: int|
                    0 <= k < described.len() ==> (#[trigger] placed[k]).address
                        == described[k].address
            }
        }),
    decreases described.len(),
{
    if described.len() > 0 {
        let first = described.drop_last();
        let last = described.last();
        let n = first.len() as int;
        lemma_tcp_shapes(first, id, expect_proxy, listeners);
        assert(described[n] == last);
        assert(last.as_tcp() is Ok <==> is_tcp_frontend(last));
        let before = super::cluster::tcp_frontends(first, id, expect_proxy);
        let after = super::cluster::tcp_frontends(described, id, expect_proxy);
        assert(expect_proxy.contains(last.address) <==> super::described::expects_header(
            listeners,
            last.address,
        ));
        if tcp_shapes(described, listeners) {
            assert forall|k: int| 0 <= k < first.len() implies is_tcp_frontend(
                #[trigger] first[k],
            ) by {
                assert(first[k] == described[k]);
            }
            assert forall|j: int, k: int| 0 <= j < k < first.len() implies (
            super::described::expects_header(listeners, (#[trigger] first[j]).address)
                <==> super::described::expects_header(listeners, (#[trigger] first[k]).address)) by {
                assert(first[j] == described[j] && first[k] == described[k]);
            }
            if n > 0 {
                assert(described[0] == first[0]);
                assert(super::described::expects_header(listeners, described[0].address)
                    <==> super::described::expects_header(listeners, described[n].address));
            }
            assert(after is Ok);
        }
        if after is Ok {
            if n > 0 {
                assert(first[0] == described[0]);
            }
            assert forall|k: int| 0 <= k < described.len() implies is_tcp_frontend(
                #[trigger] described[k],
            ) by {
                if k < n {
                    assert(first[k] == described[k]);
                }
            }
            assert forall|j: int, k: int| 0 <= j < k < described.len() implies (
            super::described::expects_header(listeners, (#[trigger] described[j]).address)
                <==> super::described::expects_header(
                listeners,
                (#[trigger] described[k]).address,
            )) by {
                assert(first[j] == described[j]);
                if k < n {
                    assert(first[k] == described[k]);
                } else {
                    if j > 0 {
                        assert(super::described::expects_header(listeners, first[0].address)
                            <==> super::described::expects_header(listeners, first[j].address));
                    }
                }
            }
            let (_, all) = after->Ok_0;
            assert forall|k: int| 0 <= k < described.len() implies (#[trigger] all[k]).address
                == described[k].address by {
                if k < n {
                    assert(first[k] == described[k]);
                    assert(all[k] == before->Ok_0.1[k]);
                }
            }
        }
    }
}

proof fn lemma_http_frontends_accepted(
    set: ListenerSetModel,
    listeners: Seq<ListenerModel>,
    frontends: Seq<Described>,
    described: Seq<FileClusterFrontendConfigModel>,
    timeouts: Timeouts,
    env: EnvironmentModel,
)
    requires
        knows(set, listeners, frontends, env.files),
        frontends_fit(listeners, frontends, env.files),
        super::cluster::http_frontends(described, env) is Ok,
    ensures
        ({
            let all = frontends + Seq::new(
                described.len(),
                |k: int| (FileClusterProtocolConfig::Http, described[k]),
            );
            let placed = set.with_http_frontends(
                super::cluster::http_frontends(described, env)->Ok_0,
                timeouts,
                env,
            );
            &&& placed is Ok <==> frontends_fit(listeners, all, env.files)
            &&& placed is Ok ==> knows(placed->Ok_0.0, listeners, all, env.files)
        }),
    decreases described.len(),
{
    let added = Seq::new(
        described.len(),
        |k: int| (FileClusterProtocolConfig::Http, described[k]),
    );
    let all = frontends + added;
    let converted = super::cluster::http_frontends(described, env)->Ok_0;
    if described.len() == 0 {
        assert(all =~= frontends);
        assert(converted =~= Seq::empty());
    } else {
        let first = described.drop_last();
        let last = described.last();
        lemma_http_frontends_accepted(set, listeners, frontends, first, timeouts, env);
        let earlier = super::cluster::http_frontends(first, env)->Ok_0;
        assert(converted.drop_last() =~= earlier);
        let before = frontends + Seq::new(
            first.len(),
            |k: int| (FileClusterProtocolConfig::Http, first[k]),
        );
        assert(all =~= before.push((FileClusterProtocolConfig::Http, last)));
        lemma_one_more_fits(
            listeners,
            before,
            (FileClusterProtocolConfig::Http, last),
            env.files,
        );
        let middle = set.with_http_frontends(earlier, timeouts, env);
        if middle is Ok {
            lemma_http_frontend_accepted(
                middle->Ok_0.0,
                listeners,
                before,
                last,
                timeouts,
                env,
            );
        }
    }
}

proof fn lemma_tcp_frontends_accepted(
    set: ListenerSetModel,
    listeners: Seq<ListenerModel>,
    frontends: Seq<Described>,
    described: Seq<FileClusterFrontendConfigModel>,
    id: Seq<char>,
    expect_proxy: Seq<SocketAddress>,
    timeouts: Timeouts,
    env: EnvironmentModel,
)
    requires
        knows(set, listeners, frontends, env.files),
        frontends_fit(listeners, frontends, env.files),
        super::cluster::tcp_frontends(described, id, expect_proxy) is Ok,
    ensures
        ({
            let all = frontends + Seq::new(
                described.len(),
                |k: int| (FileClusterProtocolConfig::Tcp, described[k]),
            );
            let placed = set.with_tcp_frontends(
                super::cluster::tcp_frontends(described, id, expect_proxy)->Ok_0.1,
                timeouts,
                env,
            );
            &&& placed is Ok <==> frontends_fit(listeners, all, env.files)
            &&& placed is Ok ==> knows(placed->Ok_0, listeners, all, env.files)
        }),
    decreases described.len(),
{
    let added = Seq::new(
        described.len(),
        |k: int| (FileClusterProtocolConfig::Tcp, described[k]),
    );
    let all = frontends + added;
    let converted = super::cluster::tcp_frontends(described, id, expect_proxy)->Ok_0.1;
    if described.len() == 0 {
        assert(all =~= frontends);
        assert(converted =~= Seq::empty());
    } else {
        let first = described.drop_last();
        let last = described.last();
        lemma_tcp_frontends_accepted(
            set,
            listeners,
            frontends,
            first,
            id,
            expect_proxy,
            timeouts,
            env,
        );
        let earlier = super::cluster::tcp_frontends(first, id, expect_proxy)->Ok_0.1;
        assert(converted.drop_last() =~= earlier);
        assert(converted.last().address == last.address);
        let before = frontends + Seq::new(
            first.len(),
            |k: int| (FileClusterProtocolConfig::Tcp, first[k]),
        );
        assert(all =~= before.push((FileClusterProtocolConfig::Tcp, last)));
        lemma_one_more_fits(
            listeners,
            before,
            (FileClusterProtocolConfig::Tcp, last),
            env.files,
        );
        let middle = set.with_tcp_frontends(earlier, timeouts, env);
        if middle is Ok {
            lemma_tcp_frontend_accepted(middle->Ok_0, listeners, before, last, timeouts, env);
        }
    }
}

/// Frontends that do not fit do not fit with more of them.
proof fn lemma_fewer_fit(
    listeners: Seq<ListenerModel>,
    frontends: Seq<Described>,
    more: Seq<Described>,
    files: Seq<LoadedFileModel>,
)
    requires
        frontends_fit(listeners, frontends + more, files),
    ensures
        frontends_fit(listeners, frontends, files),
{
    let all = frontends + more;
    assert forall|i: int, l: int|
        0 <= i < frontends.len() && 0 <= l < listeners.len() && (#[trigger] listeners[l]).address
            == (#[trigger] frontends[i]).1.address implies may_serve(
        listeners[l],
        frontends[i],
        files,
    ) by {
        assert(all[i] == frontends[i]);
    }
    assert forall|i: int, j: int|
        0 <= i < j < frontends.len() && (#[trigger] frontends[i]).1.address == (
        #[trigger] frontends[j]).1.address && !listed(
            listeners,
            frontends[i].1.address,
        ) implies wanted(frontends[i]) == wanted(frontends[j]) by {
        assert(all[i] == frontends[i] && all[j] == frontends[j]);
    }
}

proof fn lemma_known_headers(
    set: ListenerSetModel,
    listeners: Seq<ListenerModel>,
    frontends: Seq<Described>,
    files: Seq<LoadedFileModel>,
)
    requires
        knows(set, listeners, frontends, files),
    ensures
        forall|a: SocketAddress| #[trigger]
            set.expect_proxy.contains(a) <==> super::described::expects_header(listeners, a),
{
    reveal(knows);
}

proof fn lemma_clusters_accepted(
    set: ListenerSetModel,
    listeners: Seq<ListenerModel>,
    clusters: Seq<(Seq<char>, FileClusterConfigModel)>,
    timeouts: Timeouts,
    env: EnvironmentModel,
)
    requires
        knows(set, listeners, Seq::empty(), env.files),
    ensures
        ({
            let placed = set.with_clusters(clusters, timeouts, env);
            &&& placed is Ok <==> {
                &&& forall|c: int|
                    0 <= c < clusters.len() ==> cluster_is_fine(
                        (#[trigger] clusters[c]).1,
                        listeners,
                        env.files,
                    )
                &&& frontends_fit(listeners, all_described(clusters), env.files)
            }
            &&& placed is Ok ==> knows(
                placed->Ok_0.0,
                listeners,
                all_described(clusters),
                env.files,
            )
        }),
    decreases clusters.len(),
{
    if clusters.len() > 0 {
        let first = clusters.drop_last();
        let n = first.len() as int;
        let (id, described) = clusters.last();
        lemma_clusters_accepted(set, listeners, first, timeouts, env);
        assert(clusters[n] == clusters.last());
        let before = all_described(first);
        let all = all_described(clusters);
        let fine = forall|c: int|
            0 <= c < clusters.len() ==> cluster_is_fine(
                (#[trigger] clusters[c]).1,
                listeners,
                env.files,
            );
        let first_fine = forall|c: int|
            0 <= c < first.len() ==> cluster_is_fine(
                (#[trigger] first[c]).1,
                listeners,
                env.files,
            );
        if fine {
            assert forall|c: int| 0 <= c < first.len() implies cluster_is_fine(
                (#[trigger] first[c]).1,
                listeners,
                env.files,
            ) by {
                assert(first[c] == clusters[c]);
            }
        }
        if first_fine && cluster_is_fine(described, listeners, env.files) {
            assert forall|c: int| 0 <= c < clusters.len() implies cluster_is_fine(
                (#[trigger] clusters[c]).1,
                listeners,
                env.files,
            ) by {
                if c < n {
                    assert(first[c] == clusters[c]);
                }
            }
        }
        if frontends_fit(listeners, all, env.files) {
            lemma_fewer_fit(listeners, before, described_by(described), env.files);
        }
        let middle = set.with_clusters(first, timeouts, env);
        if middle is Ok {
            let known = middle->Ok_0.0;
            match described.protocol {
                FileClusterProtocolConfig::Http => {
                    lemma_http_shapes(described.frontends, env);
                    assert(described.as_cluster(id, known.expect_proxy, env) is Ok
                        <==> cluster_is_fine(described, listeners, env.files));
                    if cluster_is_fine(described, listeners, env.files) {
                        lemma_http_frontends_accepted(
                            known,
                            listeners,
                            before,
                            described.frontends,
                            timeouts,
                            env,
                        );
                        assert(all =~= before + Seq::new(
                            described.frontends.len(),
                            |k: int| (FileClusterProtocolConfig::Http, described.frontends[k]),
                        ));
                    }
                },
                FileClusterProtocolConfig::Tcp => {
                    lemma_known_headers(known, listeners, before, env.files);
                    lemma_tcp_shapes(described.frontends, id, known.expect_proxy, listeners);
                    assert(tcp_shapes(described.frontends, listeners) <==> cluster_is_fine(
                        described,
                        listeners,
                        env.files,
                    ));
                    if cluster_is_fine(described, listeners, env.files) {
                        lemma_tcp_frontends_accepted(
                            known,
                            listeners,
                            before,
                            described.frontends,
                            id,
                            known.expect_proxy,
                            timeouts,
                            env,
                        );
                        assert(all =~= before + Seq::new(
                            described.frontends.len(),
                            |k: int| (FileClusterProtocolConfig::Tcp, described.frontends[k]),
                        ));
                    }
                },
            }
        }
    }
}

/// A configuration file is accepted exactly where
/// - every listener can be had, and no two of them are at one address,
/// - every cluster can be had,
/// - every frontend is served by the listener of the file at its address, or, where there is none, the
///   frontends at one address want the same listener,
/// - the current directory is known, and
/// - a state that is saved by itself has a place.
pub proof fn law_which_files_are_accepted(
    file: FileConfigModel,
    config_path: Seq<char>,
    env: EnvironmentModel,
)
    ensures
        file.as_config(config_path, env) is Ok <==> {
            let listeners = super::described::listeners_of(file);
            let clusters = super::described::clusters_of(file);
            &&& listeners_are_fine(listeners, env.files)
            &&& forall|c: int|
                0 <= c < clusters.len() ==> cluster_is_fine(
                    (#[trigger] clusters[c]).1,
                    listeners,
                    env.files,
                )
            &&& frontends_fit(listeners, all_described(clusters), env.files)
            &&& env.current_dir is Known
            &&& file.saved_state is Some || file.automatic_state_save != Some(true)
        },
{
    let listeners = super::described::listeners_of(file);
    let clusters = super::described::clusters_of(file);
    lemma_listeners_accepted(listeners, file, env);
    let set = ListenerSetModel::from_listeners(listeners, file.timeouts(), env);
    if set is Ok {
        lemma_clusters_accepted(set->Ok_0, listeners, clusters, file.timeouts(), env);
    }
}

/// The listener is why the file is refused.
pub open spec fn listener_is_refused(
    cause: ErrorCauseModel,
    listeners: Seq<ListenerModel>,
    l: int,
    files: Seq<LoadedFileModel>,
) -> bool {
    let listener = listeners[l];
    match cause {
        ErrorCauseModel::DuplicateListener(address) => listener.address == address && listed(
            listeners.take(l),
            address,
        ),
        ErrorCauseModel::IncompatibleListener(address) => {
            &&& listener.address == address
            &&& listener.public_address is Some
            &&& listener.expect_proxy == Some(true)
        },
        ErrorCauseModel::Open404 { path, .. } => listener.answer_404 == Some(path) && !was_read(
            files,
            path,
        ),
        ErrorCauseModel::Read404 { path, .. } => listener.answer_404 == Some(path) && !was_read(
            files,
            path,
        ),
        ErrorCauseModel::Open503 { path, .. } => listener.answer_503 == Some(path) && !was_read(
            files,
            path,
        ),
        ErrorCauseModel::Read503 { path, .. } => listener.answer_503 == Some(path) && !was_read(
            files,
            path,
        ),
        _ => false,
    }
}

/// The frontend of an HTTP cluster is why the file is refused.
pub open spec fn http_frontend_is_refused(
    cause: ErrorCauseModel,
    frontend: FileClusterFrontendConfigModel,
    files: Seq<LoadedFileModel>,
) -> bool {
    match cause {
        ErrorCauseModel::MissingHostname => frontend.hostname is None,
        ErrorCauseModel::LoadKey { path, .. } => frontend.key == Some(path) && !was_read(
            files,
            path,
        ),
        ErrorCauseModel::LoadCertificate { path, .. } => frontend.certificate == Some(path)
            && !was_read(files, path),
        ErrorCauseModel::LoadCertificateChain { path, .. } => frontend.certificate_chain == Some(
            path,
        ) && !was_read(files, path),
        _ => false,
    }
}

/// The frontend in place `k` of a TCP cluster is why the file is refused.
pub open spec fn tcp_frontend_is_refused(
    cause: ErrorCauseModel,
    id: Seq<char>,
    frontends: Seq<FileClusterFrontendConfigModel>,
    k: int,
    listeners: Seq<ListenerModel>,
) -> bool {
    match cause {
        ErrorCauseModel::TcpHostname => frontends[k].hostname is Some,
        ErrorCauseModel::TcpPath => frontends[k].path is Some,
        ErrorCauseModel::TcpCertificate => frontends[k].certificate is Some,
        ErrorCauseModel::TcpCertificateChain => frontends[k].certificate_chain is Some,
        ErrorCauseModel::MixedExpectProxy { cluster_id } => cluster_id == id
            && super::described::expects_header(listeners, frontends[0].address)
            != super::described::expects_header(listeners, frontends[k].address),
        _ => false,
    }
}

/// The cluster is why the file is refused.
pub open spec fn cluster_is_refused(
    cause: ErrorCauseModel,
    id: Seq<char>,
    cluster: FileClusterConfigModel,
    listeners: Seq<ListenerModel>,
    files: Seq<LoadedFileModel>,
) -> bool {
    let frontends = cluster.frontends;
    exists|k: int|
        0 <= k < frontends.len() && {
            let frontend = #[trigger] frontends[k];
            match cluster.protocol {
                FileClusterProtocolConfig::Http => http_frontend_is_refused(cause, frontend, files),
                FileClusterProtocolConfig::Tcp => tcp_frontend_is_refused(
                    cause,
                    id,
                    frontends,
                    k,
                    listeners,
                ),
            }
        }
}

/// What is spoken at an address, by the listener of the file or for the frontends at it.
pub open spec fn speaks(
    listeners: Seq<ListenerModel>,
    frontends: Seq<Described>,
    address: SocketAddress,
    protocol: FileListenerProtocolConfig,
) -> bool {
    ||| exists|l: int|
        0 <= l < listeners.len() && (#[trigger] listeners[l]).address == address
            && listeners[l].protocol == protocol
    ||| exists|i: int|
        0 <= i < frontends.len() && (#[trigger] frontends[i]).1.address == address && wanted(
            frontends[i],
        ) == protocol
}

/// The frontend is why the file is refused: it wants something else than what is spoken at its address.
#[verifier::opaque]
pub open spec fn place_is_refused(
    cause: ErrorCauseModel,
    listeners: Seq<ListenerModel>,
    before: Seq<Described>,
    frontend: Described,
) -> bool {
    let address = frontend.1.address;
    let spoken = |protocol: FileListenerProtocolConfig|
        speaks(listeners, before, address, protocol);
    match cause {
        ErrorCauseModel::HttpFrontendOnTcpListener => wanted(frontend)
            != FileListenerProtocolConfig::Tcp && spoken(FileListenerProtocolConfig::Tcp),
        ErrorCauseModel::HttpsFrontendOnHttpListener => wanted(frontend)
            == FileListenerProtocolConfig::Https && spoken(FileListenerProtocolConfig::Http),
        ErrorCauseModel::HttpFrontendOnHttpsListener => wanted(frontend)
            == FileListenerProtocolConfig::Http && spoken(FileListenerProtocolConfig::Https),
        ErrorCauseModel::TcpFrontendOnHttpListener => wanted(frontend)
            == FileListenerProtocolConfig::Tcp && (spoken(FileListenerProtocolConfig::Http)
            || spoken(FileListenerProtocolConfig::Https)),
        _ => false,
    }
}

proof fn lemma_speaks(
    set: ListenerSetModel,
    listeners: Seq<ListenerModel>,
    frontends: Seq<Described>,
    files: Seq<LoadedFileModel>,
    address: SocketAddress,
)
    requires
        knows(set, listeners, frontends, files),
    ensures
        set.protocol_at(address) matches Some(protocol) ==> speaks(
            listeners,
            frontends,
            address,
            protocol,
        ),
{
    reveal(knows);
    if set.protocol_at(address) is Some {
        if listed(listeners, address) {
            let l = choose|l: int|
                0 <= l < listeners.len() && (#[trigger] listeners[l]).address == address;
            assert(set.protocol_at(listeners[l].address) == Some(listeners[l].protocol));
        } else {
            let i = choose|i: int|
                0 <= i < frontends.len() && (#[trigger] frontends[i]).1.address == address;
            assert(set.protocol_at(frontends[i].1.address) == Some(wanted(frontends[i])));
        }
    }
}

proof fn lemma_listener_refused(
    listeners: Seq<ListenerModel>,
    file: FileConfigModel,
    env: EnvironmentModel,
)
    ensures
        ListenerSetModel::from_listeners(listeners, file.timeouts(), env) matches Err(e)
            ==> exists|l: int|
            0 <= l < listeners.len() && #[trigger] listener_is_refused(
                e.cause,
                listeners,
                l,
                env.files,
            ),
    decreases listeners.len(),
{
    reveal(knows);
    let t = file.timeouts();
    let set = ListenerSetModel::from_listeners(listeners, t, env);
    if set is Err {
        let cause = set->Err_0.cause;
        let first = listeners.drop_last();
        let last = listeners.last();
        let n = first.len() as int;
        let before = ListenerSetModel::from_listeners(first, t, env);
        if before is Err {
            lemma_listener_refused(first, file, env);
            let l = choose|l: int|
                0 <= l < first.len() && #[trigger] listener_is_refused(
                    cause,
                    first,
                    l,
                    env.files,
                );
            assert(first[l] == listeners[l]);
            assert(first.take(l) =~= listeners.take(l));
            assert(listener_is_refused(cause, listeners, l, env.files));
        } else {
            lemma_listeners_accepted(first, file, env);
            lemma_readable(env.files, last.answer_404);
            lemma_readable(env.files, last.answer_503);
            assert(listeners[n] == last);
            assert(listeners.take(n) =~= first);
            assert(listener_is_refused(cause, listeners, n, env.files));
        }
    }
}

proof fn lemma_http_cluster_refused(
    described: Seq<FileClusterFrontendConfigModel>,
    env: EnvironmentModel,
)
    ensures
        super::cluster::http_frontends(described, env) matches Err(e) ==> exists|k: int|
            0 <= k < described.len() && http_frontend_is_refused(
                e.cause,
                #[trigger] described[k],
                env.files,
            ),
    decreases described.len(),
{
    let frontends = super::cluster::http_frontends(described, env);
    if frontends is Err {
        let cause = frontends->Err_0.cause;
        let first = described.drop_last();
        let last = described.last();
        lemma_http_cluster_refused(first, env);
        if super::cluster::http_frontends(first, env) is Err {
            let k = choose|k: int|
                0 <= k < first.len() && http_frontend_is_refused(
                    cause,
                    #[trigger] first[k],
                    env.files,
                );
            assert(described[k] == first[k]);
        } else {
            lemma_readable(env.files, last.key);
            lemma_readable(env.files, last.certificate);
            lemma_readable(env.files, last.certificate_chain);
            assert(described[described.len() - 1] == last);
        }
    }
}

proof fn lemma_tcp_cluster_refused(
    described: Seq<FileClusterFrontendConfigModel>,
    id: Seq<char>,
    expect_proxy: Seq<SocketAddress>,
    listeners: Seq<ListenerModel>,
)
    requires
        forall|a: SocketAddress| #[trigger]
            expect_proxy.contains(a) <==> super::described::expects_header(listeners, a),
    ensures
        super::cluster::tcp_frontends(described, id, expect_proxy) matches Err(e) ==> exists|k: int|
            0 <= k < described.len() && #[trigger] tcp_frontend_is_refused(
                e.cause,
                id,
                described,
                k,
                listeners,
            ),
    decreases described.len(),
{
    let frontends = super::cluster::tcp_frontends(described, id, expect_proxy);
    if frontends is Err {
        let cause = frontends->Err_0.cause;
        let first = described.drop_last();
        let last = described.last();
        lemma_tcp_cluster_refused(first, id, expect_proxy, listeners);
        lemma_tcp_shapes(first, id, expect_proxy, listeners);
        if super::cluster::tcp_frontends(first, id, expect_proxy) is Err {
            let k = choose|k: int|
                0 <= k < first.len() && #[trigger] tcp_frontend_is_refused(
                    cause,
                    id,
                    first,
                    k,
                    listeners,
                );
            assert(described[k] == first[k] && described[0] == first[0]);
            assert(tcp_frontend_is_refused(cause, id, described, k, listeners));
        } else {
            let n = described.len() - 1;
            assert(described[n] == last);
            assert(expect_proxy.contains(last.address) <==> super::described::expects_header(
                listeners,
                last.address,
            ));
            if first.len() > 0 {
                assert(first[0] == described[0]);
            }
            assert(tcp_frontend_is_refused(cause, id, described, n, listeners));
        }
    }
}

proof fn lemma_http_place_refused(
    set: ListenerSetModel,
    listeners: Seq<ListenerModel>,
    frontends: Seq<Described>,
    described: FileClusterFrontendConfigModel,
    timeouts: Timeouts,
    env: EnvironmentModel,
)
    requires
        knows(set, listeners, frontends, env.files),
        described.as_http(env) is Ok,
    ensures
        set.with_http_frontend(described.as_http(env)->Ok_0, timeouts, env) matches Err(e)
            ==> place_is_refused(
            e.cause,
            listeners,
            frontends,
            (FileClusterProtocolConfig::Http, described),
        ),
{
    reveal(place_is_refused);
    reveal(knows);
    let address = described.address;
    lemma_speaks(set, listeners, frontends, env.files, address);
    lemma_readable(env.files, described.certificate);
    lemma_default_is_there(
        set,
        address,
        FileListenerProtocolConfig::Https,
        timeouts,
        env,
        ErrorContextModel::ToTls,
    );
    lemma_default_is_there(
        set,
        address,
        FileListenerProtocolConfig::Http,
        timeouts,
        env,
        ErrorContextModel::ToHttp,
    );
}

proof fn lemma_tcp_place_refused(
    set: ListenerSetModel,
    listeners: Seq<ListenerModel>,
    frontends: Seq<Described>,
    described: FileClusterFrontendConfigModel,
    timeouts: Timeouts,
    env: EnvironmentModel,
)
    requires
        knows(set, listeners, frontends, env.files),
    ensures
        set.with_tcp_frontend(described.address, timeouts, env) matches Err(e)
            ==> place_is_refused(
            e.cause,
            listeners,
            frontends,
            (FileClusterProtocolConfig::Tcp, described),
        ),
{
    reveal(place_is_refused);
    reveal(knows);
    let address = described.address;
    lemma_speaks(set, listeners, frontends, env.files, address);
    lemma_default_is_there(
        set,
        address,
        FileListenerProtocolConfig::Tcp,
        timeouts,
        env,
        ErrorContextModel::ToTcp,
    );
}

#[verifier::spinoff_prover]
proof fn lemma_http_places_refused(
    set: ListenerSetModel,
    listeners: Seq<ListenerModel>,
    frontends: Seq<Described>,
    described: Seq<FileClusterFrontendConfigModel>,
    timeouts: Timeouts,
    env: EnvironmentModel,
)
    requires
        knows(set, listeners, frontends, env.files),
        frontends_fit(listeners, frontends, env.files),
        super::cluster::http_frontends(described, env) is Ok,
    ensures
        ({
            let all = frontends + Seq::new(
                described.len(),
                |k: int| (FileClusterProtocolConfig::Http, described[k]),
            );
            set.with_http_frontends(
                super::cluster::http_frontends(described, env)->Ok_0,
                timeouts,
                env,
            ) matches Err(e) ==> exists|n: int|
                0 <= n < all.len() && place_is_refused(
                    e.cause,
                    listeners,
                    all.take(n),
                    #[trigger] all[n],
                )
        }),
    decreases described.len(),
{
    let all = frontends + Seq::new(
        described.len(),
        |k: int| (FileClusterProtocolConfig::Http, described[k]),
    );
    let converted = super::cluster::http_frontends(described, env)->Ok_0;
    let placed = set.with_http_frontends(converted, timeouts, env);
    if described.len() == 0 {
        assert(converted =~= Seq::empty());
    } else if placed is Err {
        let cause = placed->Err_0.cause;
        let first = described.drop_last();
        let last = described.last();
        let earlier = super::cluster::http_frontends(first, env)->Ok_0;
        assert(converted.drop_last() =~= earlier);
        let before = frontends + Seq::new(
            first.len(),
            |k: int| (FileClusterProtocolConfig::Http, first[k]),
        );
        let middle = set.with_http_frontends(earlier, timeouts, env);
        if middle is Err {
            lemma_http_places_refused(set, listeners, frontends, first, timeouts, env);
            let n = choose|n: int|
                0 <= n < before.len() && place_is_refused(
                    cause,
                    listeners,
                    before.take(n),
                    #[trigger] before[n],
                );
            assert(all.take(n) =~= before.take(n));
            assert(all[n] == before[n]);
        } else {
            lemma_http_frontends_accepted(set, listeners, frontends, first, timeouts, env);
            let n = before.len() as int;
            assert(all.take(n) =~= before);
            assert(all[n] == (FileClusterProtocolConfig::Http, last));
            lemma_http_place_refused(middle->Ok_0.0, listeners, before, last, timeouts, env);
            assert(place_is_refused(cause, listeners, all.take(n), all[n]));
        }
    }
}

#[verifier::spinoff_prover]
proof fn lemma_tcp_places_refused(
    set: ListenerSetModel,
    listeners: Seq<ListenerModel>,
    frontends: Seq<Described>,
    described: Seq<FileClusterFrontendConfigModel>,
    id: Seq<char>,
    expect_proxy: Seq<SocketAddress>,
    timeouts: Timeouts,
    env: EnvironmentModel,
)
    requires
        knows(set, listeners, frontends, env.files),
        frontends_fit(listeners, frontends, env.files),
        super::cluster::tcp_frontends(described, id, expect_proxy) is Ok,
    ensures
        ({
            let all = frontends + Seq::new(
                described.len(),
                |k: int| (FileClusterProtocolConfig::Tcp, described[k]),
            );
            set.with_tcp_frontends(
                super::cluster::tcp_frontends(described, id, expect_proxy)->Ok_0.1,
                timeouts,
                env,
            ) matches Err(e) ==> exists|n: int|
                0 <= n < all.len() && place_is_refused(
                    e.cause,
                    listeners,
                    all.take(n),
                    #[trigger] all[n],
                )
        }),
    decreases described.len(),
{
    let all = frontends + Seq::new(
        described.len(),
        |k: int| (FileClusterProtocolConfig::Tcp, described[k]),
    );
    let converted = super::cluster::tcp_frontends(described, id, expect_proxy)->Ok_0.1;
    let placed = set.with_tcp_frontends(converted, timeouts, env);
    if described.len() == 0 {
        assert(converted =~= Seq::empty());
    } else if placed is Err {
        let cause = placed->Err_0.cause;
        let first = described.drop_last();
        let last = described.last();
        let earlier = super::cluster::tcp_frontends(first, id, expect_proxy)->Ok_0.1;
        assert(converted.drop_last() =~= earlier);
        assert(converted.last().address == last.address);
        let before = frontends + Seq::new(
            first.len(),
            |k: int| (FileClusterProtocolConfig::Tcp, first[k]),
        );
        let middle = set.with_tcp_frontends(earlier, timeouts, env);
        if middle is Err {
            lemma_tcp_places_refused(
                set,
                listeners,
                frontends,
                first,
                id,
                expect_proxy,
                timeouts,
                env,
            );
            let n = choose|n: int|
                0 <= n < before.len() && place_is_refused(
                    cause,
                    listeners,
                    before.take(n),
                    #[trigger] before[n],
                );
            assert(all.take(n) =~= before.take(n));
            assert(all[n] == before[n]);
        } else {
            lemma_tcp_frontends_accepted(
                set,
                listeners,
                frontends,
                first,
                id,
                expect_proxy,
                timeouts,
                env,
            );
            let n = before.len() as int;
            assert(all.take(n) =~= before);
            assert(all[n] == (FileClusterProtocolConfig::Tcp, last));
            lemma_tcp_place_refused(middle->Ok_0, listeners, before, last, timeouts, env);
            assert(place_is_refused(cause, listeners, all.take(n), all[n]));
        }
    }
}

/// One of the clusters is why the file is refused, or the place of one of their frontends.
pub open spec fn clusters_are_refused(
    cause: ErrorCauseModel,
    clusters: Seq<(Seq<char>, FileClusterConfigModel)>,
    listeners: Seq<ListenerModel>,
    files: Seq<LoadedFileModel>,
) -> bool {
    let frontends = all_described(clusters);
    ||| exists|c: int|
        0 <= c < clusters.len() && cluster_is_refused(
            cause,
            (#[trigger] clusters[c]).0,
            clusters[c].1,
            listeners,
            files,
        )
    ||| exists|n: int|
        0 <= n < frontends.len() && place_is_refused(
            cause,
            listeners,
            frontends.take(n),
            #[trigger] frontends[n],
        )
}

proof fn lemma_clusters_refused(
    set: ListenerSetModel,
    listeners: Seq<ListenerModel>,
    clusters: Seq<(Seq<char>, FileClusterConfigModel)>,
    timeouts: Timeouts,
    env: EnvironmentModel,
)
    requires
        knows(set, listeners, Seq::empty(), env.files),
    ensures
        set.with_clusters(clusters, timeouts, env) matches Err(e) ==> clusters_are_refused(
            e.cause,
            clusters,
            listeners,
            env.files,
        ),
    decreases clusters.len(),
{
    let placed = set.with_clusters(clusters, timeouts, env);
    if placed is Err {
        let cause = placed->Err_0.cause;
        let first = clusters.drop_last();
        let n = first.len() as int;
        let (id, described) = clusters.last();
        assert(clusters[n] == clusters.last());
        let before = all_described(first);
        let all = all_described(clusters);
        let middle = set.with_clusters(first, timeouts, env);
        if middle is Err {
            lemma_clusters_refused(set, listeners, first, timeouts, env);
            if exists|c: int|
                0 <= c < first.len() && cluster_is_refused(
                    cause,
                    (#[trigger] first[c]).0,
                    first[c].1,
                    listeners,
                    env.files,
                ) {
                let c = choose|c: int|
                    0 <= c < first.len() && cluster_is_refused(
                        cause,
                        (#[trigger] first[c]).0,
                        first[c].1,
                        listeners,
                        env.files,
                    );
                assert(clusters[c] == first[c]);
            } else {
                let m = choose|m: int|
                    0 <= m < before.len() && place_is_refused(
                        cause,
                        listeners,
                        before.take(m),
                        #[trigger] before[m],
                    );
                assert(all[m] == before[m]);
                assert(all.take(m) =~= before.take(m));
            }
        } else {
            lemma_clusters_accepted(set, listeners, first, timeouts, env);
            let known = middle->Ok_0.0;
            match described.protocol {
                FileClusterProtocolConfig::Http => {
                    lemma_http_cluster_refused(described.frontends, env);
                    if super::cluster::http_frontends(described.frontends, env) is Ok {
                        lemma_http_places_refused(
                            known,
                            listeners,
                            before,
                            described.frontends,
                            timeouts,
                            env,
                        );
                        assert(all =~= before + Seq::new(
                            described.frontends.len(),
                            |k: int| (FileClusterProtocolConfig::Http, described.frontends[k]),
                        ));
                    } else {
                        let frontends = described.frontends;
                        let k = choose|k: int|
                            0 <= k < frontends.len() && http_frontend_is_refused(
                                cause,
                                #[trigger] frontends[k],
                                env.files,
                            );
                        assert(http_frontend_is_refused(cause, frontends[k], env.files));
                        assert(cluster_is_refused(cause, id, described, listeners, env.files));
                    }
                },
                FileClusterProtocolConfig::Tcp => {
                    let expect_proxy = known.expect_proxy;
                    lemma_known_headers(known, listeners, before, env.files);
                    lemma_tcp_cluster_refused(described.frontends, id, expect_proxy, listeners);
                    if super::cluster::tcp_frontends(
                        described.frontends,
                        id,
                        expect_proxy,
                    ) is Ok {
                        lemma_tcp_places_refused(
                            known,
                            listeners,
                            before,
                            described.frontends,
                            id,
                            expect_proxy,
                            timeouts,
                            env,
                        );
                        assert(all =~= before + Seq::new(
                            described.frontends.len(),
                            |k: int| (FileClusterProtocolConfig::Tcp, described.frontends[k]),
                        ));
                    } else {
                        let frontends = described.frontends;
                        let k = choose|k: int|
                            0 <= k < frontends.len() && #[trigger] tcp_frontend_is_refused(
                                cause,
                                id,
                                frontends,
                                k,
                                listeners,
                            );
                        assert(tcp_frontend_is_refused(cause, id, frontends, k, listeners));
                        assert(cluster_is_refused(cause, id, described, listeners, env.files));
                    }
                },
            }
        }
    }
}

/// A file that is refused is told why: the error names what is wrong with a listener, with a cluster or
/// with the place of a frontend, or that the current directory is not known, or that the state has no
/// place to be saved.
pub proof fn law_refusals_tell_why(
    file: FileConfigModel,
    config_path: Seq<char>,
    env: EnvironmentModel,
)
    ensures
        file.as_config(config_path, env) matches Err(e) ==> {
            let listeners = super::described::listeners_of(file);
            let clusters = super::described::clusters_of(file);
            ||| exists|l: int|
                0 <= l < listeners.len() && #[trigger] listener_is_refused(
                    e.cause,
                    listeners,
                    l,
                    env.files,
                )
            ||| clusters_are_refused(e.cause, clusters, listeners, env.files)
            ||| e.cause == ErrorCauseModel::NoCurrentDir && env.current_dir is Unavailable
            ||| e.cause == ErrorCauseModel::InvalidSocketPath && env.current_dir is NotUnicode
            ||| e.cause == ErrorCauseModel::AutomaticSaveWithoutPath && file.saved_state is None
                && file.automatic_state_save == Some(true)
        },
{
    let listeners = super::described::listeners_of(file);
    let clusters = super::described::clusters_of(file);
    lemma_listener_refused(listeners, file, env);
    lemma_listeners_accepted(listeners, file, env);
    let set = ListenerSetModel::from_listeners(listeners, file.timeouts(), env);
    if set is Ok {
        lemma_clusters_refused(set->Ok_0, listeners, clusters, file.timeouts(), env);
    }
}

} // verus!
