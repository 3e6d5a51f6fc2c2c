//! An accepted configuration is what its file describes.
use vstd::prelude::*;

use crate::address::SocketAddress;
use crate::proxy::{
    HttpListenerConfigModel, HttpsListenerConfigModel, PathRuleModel, ProxyProtocolConfig,
    TcpListenerConfigModel, TlsVersion,
};

use super::assembly::ListenerSetModel;
use super::environment::{CurrentDirModel, EnvironmentModel, FileContentModel, LoadedFileModel};
use super::error::ErrorContextModel;
use super::types::{
    ClusterConfigModel, FileClusterConfigModel, FileClusterFrontendConfigModel,
    FileClusterProtocolConfig, FileConfigModel, FileListenerProtocolConfig,
    HttpFrontendConfigModel, ListenerModel, PathRuleType, TcpFrontendConfigModel,
};

verus! {

/// The listeners that the file describes.
pub open spec fn listeners_of(file: FileConfigModel) -> Seq<ListenerModel> {
    match file.listeners {
        Some(listeners) => listeners,
        None => Seq::empty(),
    }
}

/// The clusters that the file describes.
pub open spec fn clusters_of(file: FileConfigModel) -> Seq<(Seq<char>, FileClusterConfigModel)> {
    match file.clusters {
        Some(clusters) => clusters,
        None => Seq::empty(),
    }
}

/// A listener of the file at `address` expects the header of the proxy protocol.
pub open spec fn expects_header(listeners: Seq<ListenerModel>, address: SocketAddress) -> bool {
    exists|i: int|
        0 <= i < listeners.len() && (#[trigger] listeners[i]).address == address
            && listeners[i].expect_proxy == Some(true)
}

/// The first file under `path` was read and holds `text`.
pub open spec fn holds(files: Seq<LoadedFileModel>, path: Seq<char>, text: Seq<char>) -> bool {
    exists|i: int|
        0 <= i < files.len() && (#[trigger] files[i]).path == path && files[i].content
            == FileContentModel::Text(text) && forall|k: int|
            0 <= k < i ==> (#[trigger] files[k]).path != path
}

/// The text is that of the file under `path`; there is none where no path is given, or where the file
/// could not be read.
pub open spec fn is_text_at(
    files: Seq<LoadedFileModel>,
    path: Option<Seq<char>>,
    text: Option<Seq<char>>,
) -> bool {
    match (path, text) {
        (None, text) => text is None,
        (Some(path), Some(text)) => holds(files, path, text),
        (Some(path), None) => forall|text: Seq<char>| !holds(files, path, text),
    }
}

pub(crate) proof fn lemma_file_at(files: Seq<LoadedFileModel>, path: Seq<char>)
    ensures
        match super::environment::file_at(files, path) {
            FileContentModel::Text(text) => holds(files, path, text),
            _ => forall|text: Seq<char>| !holds(files, path, text),
        },
    decreases files.len(),
{
    if files.len() > 0 && files[0].path != path {
        let rest = files.drop_first();
        lemma_file_at(rest, path);
        match super::environment::file_at(files, path) {
            FileContentModel::Text(text) => {
                let i = choose|i: int|
                    0 <= i < rest.len() && (#[trigger] rest[i]).path == path && rest[i].content
                        == FileContentModel::Text(text) && forall|k: int|
                        0 <= k < i ==> (#[trigger] rest[k]).path != path;
                assert(files[i + 1] == rest[i]);
                assert forall|k: int| 0 <= k < i + 1 implies (#[trigger] files[k]).path != path by {
                    if k > 0 {
                        assert(rest[k - 1] == files[k]);
                    }
                }
            },
            _ => {
                assert forall|text: Seq<char>| !holds(files, path, text) by {
                    if holds(files, path, text) {
                        let i = choose|i: int|
                            0 <= i < files.len() && (#[trigger] files[i]).path == path
                                && files[i].content == FileContentModel::Text(text) && forall|
                                k: int,
                            |
                                0 <= k < i ==> (#[trigger] files[k]).path != path;
                        assert(i > 0);
                        assert(rest[i - 1] == files[i]);
                        assert forall|k: int| 0 <= k < i - 1 implies (#[trigger] rest[k]).path
                            != path by {
                            assert(rest[k] == files[k + 1]);
                        }
                        assert(holds(rest, path, text));
                    }
                }
            },
        }
    } else if files.len() > 0 {
        assert(files[0].path == path);
        assert forall|text: Seq<char>| holds(files, path, text) implies files[0].content
            == FileContentModel::Text(text) by {
            let i = choose|i: int|
                0 <= i < files.len() && (#[trigger] files[i]).path == path && files[i].content
                    == FileContentModel::Text(text) && forall|k: int|
                    0 <= k < i ==> (#[trigger] files[k]).path != path;
            assert(i == 0);
        }
    }
}

proof fn lemma_text_at(files: Seq<LoadedFileModel>, path: Option<Seq<char>>)
    ensures
        is_text_at(files, path, super::environment::text_at(files, path)),
{
    if let Some(path) = path {
        lemma_file_at(files, path);
    }
}

/// The listener's own timeout, or else the one for all listeners, or else the default.
pub open spec fn is_timeout(t: u32, own: Option<u32>, general: Option<u32>, default: u32) -> bool {
    &&& own is Some ==> own == Some(t)
    &&& own is None && general is Some ==> general == Some(t)
    &&& own is None && general is None ==> t == default
}

/// The answer is that of the file that is named, or else that of the machine.
pub open spec fn is_answer(
    answer: Seq<char>,
    path: Option<Seq<char>>,
    machine: Seq<char>,
    files: Seq<LoadedFileModel>,
) -> bool {
    match path {
        Some(path) => holds(files, path, answer),
        None => answer == machine,
    }
}

/// The HTTP listener has the options of the file.
pub open spec fn is_http(
    listener: HttpListenerConfigModel,
    described: ListenerModel,
    file: FileConfigModel,
    env: EnvironmentModel,
) -> bool {
    &&& described.protocol == FileListenerProtocolConfig::Http
    &&& listener.address == described.address
    &&& listener.public_address == described.public_address
    &&& is_answer(listener.answer_404, described.answer_404, env.answer_404, env.files)
    &&& is_answer(listener.answer_503, described.answer_503, env.answer_503, env.files)
    &&& listener.expect_proxy <==> described.expect_proxy == Some(true)
    &&& listener.sticky_name == described.sticky_name
    &&& is_timeout(listener.front_timeout, described.front_timeout, file.front_timeout, 60)
    &&& is_timeout(listener.back_timeout, described.back_timeout, file.back_timeout, 30)
    &&& is_timeout(listener.connect_timeout, described.connect_timeout, file.connect_timeout, 3)
    &&& is_timeout(listener.request_timeout, described.request_timeout, file.request_timeout, 10)
}

/// The listener offers what every HTTPS listener does.
pub open spec fn offers_as_usual(listener: HttpsListenerConfigModel) -> bool {
    &&& listener.cipher_suites == seq![
        "TLS_AES_256_GCM_SHA384"@,
        "TLS_AES_128_GCM_SHA256"@,
        "TLS_AES_128_CCM_SHA256"@,
        "TLS_CHACHA20_POLY1305_SHA256"@,
    ]
    &&& listener.signature_algorithms == seq![
        "ECDSA+SHA256"@,
        "ECDSA+SHA384"@,
        "ECDSA+SHA512"@,
        "RSA+SHA256"@,
        "RSA+SHA384"@,
        "RSA+SHA512"@,
        "RSA-PSS+SHA256"@,
        "RSA-PSS+SHA384"@,
        "RSA-PSS+SHA512"@,
    ]
    &&& listener.groups_list == seq!["P-521"@, "P-384"@, "P-256"@, "x25519"@]
}

/// The listener takes the ciphers that are taken where the file lists none.
pub open spec fn takes_usual_ciphers(listener: HttpsListenerConfigModel) -> bool {
    listener.cipher_list == seq![
        "TLS13_AES_256_GCM_SHA384"@,
        "TLS13_AES_128_GCM_SHA256"@,
        "TLS13_CHACHA20_POLY1305_SHA256"@,
        "TLS_ECDHE_ECDSA_WITH_AES_256_GCM_SHA384"@,
        "TLS_ECDHE_ECDSA_WITH_AES_128_GCM_SHA256"@,
        "TLS_ECDHE_ECDSA_WITH_CHACHA20_POLY1305_SHA256"@,
        "TLS_ECDHE_RSA_WITH_AES_256_GCM_SHA384"@,
        "TLS_ECDHE_RSA_WITH_AES_128_GCM_SHA256"@,
        "TLS_ECDHE_RSA_WITH_CHACHA20_POLY1305_SHA256"@,
    ]
}

/// The HTTPS listener has the options of the file.
pub open spec fn is_https(
    listener: HttpsListenerConfigModel,
    described: ListenerModel,
    file: FileConfigModel,
    env: EnvironmentModel,
) -> bool {
    &&& described.protocol == FileListenerProtocolConfig::Https
    &&& listener.address == described.address
    &&& listener.public_address == described.public_address
    &&& is_answer(listener.answer_404, described.answer_404, env.answer_404, env.files)
    &&& is_answer(listener.answer_503, described.answer_503, env.answer_503, env.files)
    &&& listener.expect_proxy <==> described.expect_proxy == Some(true)
    &&& listener.sticky_name == described.sticky_name
    &&& described.tls_versions matches Some(versions) ==> listener.versions == versions
    &&& described.tls_versions is None ==> listener.versions == seq![
        TlsVersion::TLSv1_2,
        TlsVersion::TLSv1_3,
    ]
    &&& described.cipher_list matches Some(ciphers) ==> listener.cipher_list == ciphers
    &&& described.cipher_list is None ==> takes_usual_ciphers(listener)
    &&& offers_as_usual(listener)
    &&& is_text_at(env.files, described.certificate, listener.certificate)
    &&& is_text_at(env.files, described.key, listener.key)
    &&& described.certificate_chain is None ==> listener.certificate_chain.len() == 0
    &&& described.certificate_chain matches Some(path) ==> forall|chain: Seq<char>| #[trigger]
        holds(env.files, path, chain) ==> listener.certificate_chain
            == crate::certificate::certificates_from(chain, 0)
    &&& described.certificate_chain matches Some(path) ==> ((forall|chain: Seq<char>|
        !#[trigger] holds(env.files, path, chain)) ==> listener.certificate_chain.len() == 0)
    &&& is_timeout(listener.front_timeout, described.front_timeout, file.front_timeout, 60)
    &&& is_timeout(listener.back_timeout, described.back_timeout, file.back_timeout, 30)
    &&& is_timeout(listener.connect_timeout, described.connect_timeout, file.connect_timeout, 3)
    &&& is_timeout(listener.request_timeout, described.request_timeout, file.request_timeout, 10)
}

/// The TCP listener has the options of the file.
pub open spec fn is_tcp(
    listener: TcpListenerConfigModel,
    described: ListenerModel,
    file: FileConfigModel,
) -> bool {
    &&& described.protocol == FileListenerProtocolConfig::Tcp
    &&& listener.address == described.address
    &&& listener.public_address == described.public_address
    &&& listener.expect_proxy <==> described.expect_proxy == Some(true)
    &&& is_timeout(listener.front_timeout, described.front_timeout, file.front_timeout, 60)
    &&& is_timeout(listener.back_timeout, described.back_timeout, file.back_timeout, 30)
    &&& is_timeout(listener.connect_timeout, described.connect_timeout, file.connect_timeout, 3)
}

/// A listener of which the file says nothing but that it is needed.
pub open spec fn without_options(described: ListenerModel) -> bool {
    &&& described.public_address is None
    &&& described.answer_404 is None
    &&& described.answer_503 is None
    &&& described.tls_versions is None
    &&& described.cipher_list is None
    &&& described.expect_proxy is None
    &&& described.sticky_name == "SOZUBALANCEID"@
    &&& described.certificate is None
    &&& described.certificate_chain is None
    &&& described.key is None
    &&& described.front_timeout is None
    &&& described.back_timeout is None
    &&& described.connect_timeout is None
    &&& described.request_timeout is None
}

proof fn lemma_holds_once(files: Seq<LoadedFileModel>, path: Seq<char>, a: Seq<char>, b: Seq<char>)
    requires
        holds(files, path, a),
        holds(files, path, b),
    ensures
        a == b,
{
    let i = choose|i: int|
        0 <= i < files.len() && (#[trigger] files[i]).path == path && files[i].content
            == FileContentModel::Text(a) && forall|k: int|
            0 <= k < i ==> (#[trigger] files[k]).path != path;
    let j = choose|j: int|
        0 <= j < files.len() && (#[trigger] files[j]).path == path && files[j].content
            == FileContentModel::Text(b) && forall|k: int|
            0 <= k < j ==> (#[trigger] files[k]).path != path;
    assert(i == j);
}

proof fn lemma_built(described: ListenerModel, file: FileConfigModel, env: EnvironmentModel)
    ensures
        ({
            let t = file.timeouts();
            &&& described.as_http(t.front, t.back, t.connect, t.request, env) matches Ok(listener)
                ==> is_http(listener, described, file, env)
            &&& described.as_https(t.front, t.back, t.connect, t.request, env) matches Ok(listener)
                ==> is_https(listener, described, file, env)
            &&& described.protocol == FileListenerProtocolConfig::Tcp ==> is_tcp(
                described.as_tcp(t.front, t.back, t.connect),
                described,
                file,
            )
        }),
{
    if let Some(path) = described.answer_404 {
        lemma_file_at(env.files, path);
    }
    if let Some(path) = described.answer_503 {
        lemma_file_at(env.files, path);
    }
    lemma_text_at(env.files, described.certificate);
    lemma_text_at(env.files, described.key);
    let t = file.timeouts();
    if let Ok(listener) = described.as_https(t.front, t.back, t.connect, t.request, env) {
        if let Some(path) = described.certificate_chain {
            lemma_file_at(env.files, path);
            assert forall|chain: Seq<char>| #[trigger]
                holds(env.files, path, chain) implies listener.certificate_chain
                == crate::certificate::certificates_from(chain, 0) by {
                match super::environment::file_at(env.files, path) {
                    FileContentModel::Text(text) => {
                        lemma_holds_once(env.files, path, text, chain);
                    },
                    _ => {},
                }
            }
        }
    }
}

/// The listener of its protocol that `described` leads to is among those of the set.
pub open spec fn is_there(
    http: Seq<HttpListenerConfigModel>,
    https: Seq<HttpsListenerConfigModel>,
    tcp: Seq<TcpListenerConfigModel>,
    described: ListenerModel,
    file: FileConfigModel,
    env: EnvironmentModel,
) -> bool {
    match described.protocol {
        FileListenerProtocolConfig::Http => exists|j: int|
            0 <= j < http.len() && is_http(#[trigger] http[j], described, file, env),
        FileListenerProtocolConfig::Https => exists|j: int|
            0 <= j < https.len() && is_https(#[trigger] https[j], described, file, env),
        FileListenerProtocolConfig::Tcp => exists|j: int|
            0 <= j < tcp.len() && is_tcp(#[trigger] tcp[j], described, file),
    }
}

proof fn lemma_stays_there(
    set: ListenerSetModel,
    next: ListenerSetModel,
    described: ListenerModel,
    file: FileConfigModel,
    env: EnvironmentModel,
)
    requires
        is_there(set.http, set.https, set.tcp, described, file, env),
        set.http.is_prefix_of(next.http),
        set.https.is_prefix_of(next.https),
        set.tcp.is_prefix_of(next.tcp),
    ensures
        is_there(next.http, next.https, next.tcp, described, file, env),
{
    match described.protocol {
        FileListenerProtocolConfig::Http => {
            let j = choose|j: int|
                0 <= j < set.http.len() && is_http(#[trigger] set.http[j], described, file, env);
            assert(next.http[j] == set.http[j]);
        },
        FileListenerProtocolConfig::Https => {
            let j = choose|j: int|
                0 <= j < set.https.len() && is_https(#[trigger] set.https[j], described, file, env);
            assert(next.https[j] == set.https[j]);
        },
        FileListenerProtocolConfig::Tcp => {
            let j = choose|j: int|
                0 <= j < set.tcp.len() && is_tcp(#[trigger] set.tcp[j], described, file);
            assert(next.tcp[j] == set.tcp[j]);
        },
    }
}

/// The listeners of the file.
pub(crate) proof fn lemma_listeners(listeners: Seq<ListenerModel>, file: FileConfigModel, env: EnvironmentModel)
    requires
        ListenerSetModel::from_listeners(listeners, file.timeouts(), env) is Ok,
    ensures
        ({
            let set = ListenerSetModel::from_listeners(listeners, file.timeouts(), env)->Ok_0;
            &&& set.http.len() + set.https.len() + set.tcp.len() == listeners.len()
            &&& forall|i: int|
                0 <= i < listeners.len() ==> is_there(
                    set.http,
                    set.https,
                    set.tcp,
                    #[trigger] listeners[i],
                    file,
                    env,
                )
            &&& forall|i: int|
                0 <= i < listeners.len() ==> !((#[trigger] listeners[i]).public_address is Some
                    && listeners[i].expect_proxy == Some(true))
            &&& forall|address: SocketAddress| #[trigger]
                set.expect_proxy.contains(address) <==> expects_header(listeners, address)
        }),
    decreases listeners.len(),
{
    let next = ListenerSetModel::from_listeners(listeners, file.timeouts(), env)->Ok_0;
    if listeners.len() > 0 {
        let first = listeners.drop_last();
        let last = listeners.last();
        lemma_listeners(first, file, env);
        let set = ListenerSetModel::from_listeners(first, file.timeouts(), env)->Ok_0;
        lemma_built(last, file, env);
        assert(set.http.is_prefix_of(next.http));
        assert(set.https.is_prefix_of(next.https));
        assert(set.tcp.is_prefix_of(next.tcp));
        assert forall|i: int| 0 <= i < listeners.len() implies is_there(
            next.http,
            next.https,
            next.tcp,
            #[trigger] listeners[i],
            file,
            env,
        ) by {
            if i < first.len() {
                assert(listeners[i] == first[i]);
                lemma_stays_there(set, next, first[i], file, env);
            } else {
                match last.protocol {
                    FileListenerProtocolConfig::Http => {
                        assert(is_http(next.http[next.http.len() - 1], last, file, env));
                    },
                    FileListenerProtocolConfig::Https => {
                        assert(is_https(next.https[next.https.len() - 1], last, file, env));
                    },
                    FileListenerProtocolConfig::Tcp => {
                        assert(is_tcp(next.tcp[next.tcp.len() - 1], last, file));
                    },
                }
            }
        }
        assert forall|i: int| 0 <= i < listeners.len() implies !((
        #[trigger] listeners[i]).public_address is Some && listeners[i].expect_proxy == Some(
            true,
        )) by {
            if i < first.len() {
                assert(listeners[i] == first[i]);
            }
        }
        assert forall|address: SocketAddress| #[trigger]
            next.expect_proxy.contains(address) <==> expects_header(listeners, address) by {
            lemma_one_more_header(first, last, address);
            assert(listeners =~= first.push(last));
            assert(set.expect_proxy.contains(address) <==> expects_header(first, address));
            if last.expect_proxy == Some(true) {
                assert(next.expect_proxy == set.expect_proxy.push(last.address));
                assert(next.expect_proxy[next.expect_proxy.len() - 1] == last.address);
                if set.expect_proxy.contains(address) {
                    let k = set.expect_proxy.index_of(address);
                    assert(next.expect_proxy[k] == address);
                }
                if next.expect_proxy.contains(address) && last.address != address {
                    let k = next.expect_proxy.index_of(address);
                    assert(set.expect_proxy[k] == address);
                }
            }
        }
    }
}

proof fn lemma_one_more_header(
    first: Seq<ListenerModel>,
    last: ListenerModel,
    address: SocketAddress,
)
    ensures
        expects_header(first.push(last), address) <==> expects_header(first, address) || (
        last.address == address && last.expect_proxy == Some(true)),
{
    let all = first.push(last);
    if expects_header(first, address) {
        let i = choose|i: int|
            0 <= i < first.len() && (#[trigger] first[i]).address == address
                && first[i].expect_proxy == Some(true);
        assert(all[i] == first[i]);
    }
    if last.address == address && last.expect_proxy == Some(true) {
        assert(all[first.len() as int] == last);
    }
    if expects_header(all, address) && !(last.address == address && last.expect_proxy == Some(
        true,
    )) {
        let i = choose|i: int|
            0 <= i < all.len() && (#[trigger] all[i]).address == address && all[i].expect_proxy
                == Some(true);
        assert(first[i] == all[i]);
    }
}

/// An HTTP listener that the file needs without describing it.
pub open spec fn is_default_http(
    listener: HttpListenerConfigModel,
    file: FileConfigModel,
    env: EnvironmentModel,
) -> bool {
    exists|described: ListenerModel| #[trigger]
        is_http(listener, described, file, env) && without_options(described)
}

/// An HTTPS listener that the file needs without describing it.
pub open spec fn is_default_https(
    listener: HttpsListenerConfigModel,
    file: FileConfigModel,
    env: EnvironmentModel,
) -> bool {
    exists|described: ListenerModel| #[trigger]
        is_https(listener, described, file, env) && without_options(described)
}

/// A TCP listener that the file needs without describing it.
pub open spec fn is_default_tcp(listener: TcpListenerConfigModel, file: FileConfigModel) -> bool {
    exists|described: ListenerModel| #[trigger]
        is_tcp(listener, described, file) && without_options(described)
}

/// Listeners without options come behind those that are there.
spec fn extends(
    set: ListenerSetModel,
    next: ListenerSetModel,
    file: FileConfigModel,
    env: EnvironmentModel,
) -> bool {
    &&& set.http.is_prefix_of(next.http)
    &&& set.https.is_prefix_of(next.https)
    &&& set.tcp.is_prefix_of(next.tcp)
    &&& set.expect_proxy == next.expect_proxy
    &&& forall|j: int|
        set.http.len() <= j < next.http.len() ==> is_default_http(
            #[trigger] next.http[j],
            file,
            env,
        )
    &&& forall|j: int|
        set.https.len() <= j < next.https.len() ==> is_default_https(
            #[trigger] next.https[j],
            file,
            env,
        )
    &&& forall|j: int|
        set.tcp.len() <= j < next.tcp.len() ==> is_default_tcp(#[trigger] next.tcp[j], file)
}

proof fn lemma_extends_on(
    set: ListenerSetModel,
    middle: ListenerSetModel,
    next: ListenerSetModel,
    file: FileConfigModel,
    env: EnvironmentModel,
)
    requires
        extends(set, middle, file, env),
        extends(middle, next, file, env),
    ensures
        extends(set, next, file, env),
{
    assert(set.http =~= next.http.take(set.http.len() as int)) by {
        assert forall|j: int| 0 <= j < set.http.len() implies set.http[j] == next.http[j] by {
            assert(set.http[j] == middle.http[j]);
        }
    }
    assert(set.https =~= next.https.take(set.https.len() as int)) by {
        assert forall|j: int| 0 <= j < set.https.len() implies set.https[j] == next.https[j] by {
            assert(set.https[j] == middle.https[j]);
        }
    }
    assert(set.tcp =~= next.tcp.take(set.tcp.len() as int)) by {
        assert forall|j: int| 0 <= j < set.tcp.len() implies set.tcp[j] == next.tcp[j] by {
            assert(set.tcp[j] == middle.tcp[j]);
        }
    }
    assert forall|j: int| set.http.len() <= j < next.http.len() implies is_default_http(
        #[trigger] next.http[j],
        file,
        env,
    ) by {
        if j < middle.http.len() {
            assert(next.http[j] == middle.http[j]);
        }
    }
    assert forall|j: int| set.https.len() <= j < next.https.len() implies is_default_https(
        #[trigger] next.https[j],
        file,
        env,
    ) by {
        if j < middle.https.len() {
            assert(next.https[j] == middle.https[j]);
        }
    }
    assert forall|j: int| set.tcp.len() <= j < next.tcp.len() implies is_default_tcp(
        #[trigger] next.tcp[j],
        file,
    ) by {
        if j < middle.tcp.len() {
            assert(next.tcp[j] == middle.tcp[j]);
        }
    }
}

proof fn lemma_default_extends(
    set: ListenerSetModel,
    address: SocketAddress,
    protocol: FileListenerProtocolConfig,
    file: FileConfigModel,
    env: EnvironmentModel,
    context: ErrorContextModel,
)
    ensures
        set.with_default(address, protocol, file.timeouts(), env, context) matches Ok(next)
            ==> extends(set, next, file, env),
        extends(set, set, file, env),
{
    let described = ListenerModel::plain(address, protocol);
    assert(without_options(described));
    lemma_built(described, file, env);
    assert(set.http.is_prefix_of(set.http));
    assert(set.https.is_prefix_of(set.https));
    assert(set.tcp.is_prefix_of(set.tcp));
    if let Ok(next) = set.with_default(address, protocol, file.timeouts(), env, context) {
        assert(set.http.is_prefix_of(next.http));
        assert(set.https.is_prefix_of(next.https));
        assert(set.tcp.is_prefix_of(next.tcp));
    }
}

/// The frontend that got a listener is the one that was described; only a certificate, with its
/// chain and key, may have come from the listener.
spec fn is_placed(
    placed: HttpFrontendConfigModel,
    frontend: HttpFrontendConfigModel,
) -> bool {
    &&& placed == HttpFrontendConfigModel {
        certificate: placed.certificate,
        certificate_chain: placed.certificate_chain,
        key: placed.key,
        ..frontend
    }
    &&& frontend.certificate is Some || placed.certificate is None ==> placed == frontend
}

proof fn lemma_http_placed(
    set: ListenerSetModel,
    frontends: Seq<HttpFrontendConfigModel>,
    file: FileConfigModel,
    env: EnvironmentModel,
)
    requires
        set.with_http_frontends(frontends, file.timeouts(), env) is Ok,
    ensures
        ({
            let (next, placed) = set.with_http_frontends(frontends, file.timeouts(), env)->Ok_0;
            &&& extends(set, next, file, env)
            &&& placed.len() == frontends.len()
            &&& forall|k: int|
                0 <= k < frontends.len() ==> is_placed(placed[k], #[trigger] frontends[k])
        }),
    decreases frontends.len(),
{
    let (next, placed) = set.with_http_frontends(frontends, file.timeouts(), env)->Ok_0;
    if frontends.len() == 0 {
        lemma_default_extends(
            set,
            SocketAddress::V4 { ip: 0, port: 0 },
            FileListenerProtocolConfig::Http,
            file,
            env,
            ErrorContextModel::ToHttp,
        );
    } else {
        let first = frontends.drop_last();
        let last = frontends.last();
        lemma_http_placed(set, first, file, env);
        let (middle, before) = set.with_http_frontends(first, file.timeouts(), env)->Ok_0;
        lemma_default_extends(
            middle,
            last.address,
            FileListenerProtocolConfig::Https,
            file,
            env,
            ErrorContextModel::ToTls,
        );
        lemma_default_extends(
            middle,
            last.address,
            FileListenerProtocolConfig::Http,
            file,
            env,
            ErrorContextModel::ToHttp,
        );
        super::laws::lemma_certified(middle.https, last.address);
        lemma_extends_on(set, middle, next, file, env);
        assert forall|k: int| 0 <= k < frontends.len() implies is_placed(
            placed[k],
            #[trigger] frontends[k],
        ) by {
            if k < first.len() {
                assert(is_placed(before[k], first[k]));
            }
        }
    }
}

proof fn lemma_tcp_placed(
    set: ListenerSetModel,
    frontends: Seq<TcpFrontendConfigModel>,
    file: FileConfigModel,
    env: EnvironmentModel,
)
    requires
        set.with_tcp_frontends(frontends, file.timeouts(), env) is Ok,
    ensures
        extends(set, set.with_tcp_frontends(frontends, file.timeouts(), env)->Ok_0, file, env),
    decreases frontends.len(),
{
    let next = set.with_tcp_frontends(frontends, file.timeouts(), env)->Ok_0;
    if frontends.len() == 0 {
        lemma_default_extends(
            set,
            SocketAddress::V4 { ip: 0, port: 0 },
            FileListenerProtocolConfig::Tcp,
            file,
            env,
            ErrorContextModel::ToTcp,
        );
    } else {
        lemma_tcp_placed(set, frontends.drop_last(), file, env);
        let middle = set.with_tcp_frontends(frontends.drop_last(), file.timeouts(), env)->Ok_0;
        lemma_default_extends(
            middle,
            frontends.last().address,
            FileListenerProtocolConfig::Tcp,
            file,
            env,
            ErrorContextModel::ToTcp,
        );
        lemma_extends_on(set, middle, next, file, env);
    }
}

/// The cluster that got its listeners is the one that was described, under its identifier.
spec fn is_cluster(
    placed: (Seq<char>, ClusterConfigModel),
    described: (Seq<char>, FileClusterConfigModel),
    expect_proxy: Seq<SocketAddress>,
    env: EnvironmentModel,
) -> bool {
    &&& placed.0 == described.0
    &&& match (described.1.as_cluster(described.0, expect_proxy, env), placed.1) {
        (Ok(ClusterConfigModel::Http(wanted)), ClusterConfigModel::Http(http)) => {
            &&& http == (super::types::HttpClusterConfigModel {
                frontends: http.frontends,
                ..wanted
            })
            &&& http.frontends.len() == wanted.frontends.len()
            &&& forall|k: int|
                0 <= k < wanted.frontends.len() ==> is_placed(
                    http.frontends[k],
                    #[trigger] wanted.frontends[k],
                )
        },
        (Ok(ClusterConfigModel::Tcp(wanted)), ClusterConfigModel::Tcp(tcp)) => tcp == wanted,
        _ => false,
    }
}

proof fn lemma_clusters_placed(
    set: ListenerSetModel,
    clusters: Seq<(Seq<char>, FileClusterConfigModel)>,
    file: FileConfigModel,
    env: EnvironmentModel,
)
    requires
        set.with_clusters(clusters, file.timeouts(), env) is Ok,
    ensures
        ({
            let (next, placed) = set.with_clusters(clusters, file.timeouts(), env)->Ok_0;
            &&& extends(set, next, file, env)
            &&& placed.len() == clusters.len()
            &&& forall|c: int|
                0 <= c < clusters.len() ==> is_cluster(
                    placed[c],
                    #[trigger] clusters[c],
                    set.expect_proxy,
                    env,
                )
        }),
    decreases clusters.len(),
{
    let (next, placed) = set.with_clusters(clusters, file.timeouts(), env)->Ok_0;
    if clusters.len() == 0 {
        lemma_default_extends(
            set,
            SocketAddress::V4 { ip: 0, port: 0 },
            FileListenerProtocolConfig::Tcp,
            file,
            env,
            ErrorContextModel::ToTcp,
        );
    } else {
        let first = clusters.drop_last();
        lemma_clusters_placed(set, first, file, env);
        let (middle, before) = set.with_clusters(first, file.timeouts(), env)->Ok_0;
        let (id, described) = clusters.last();
        let cluster = described.as_cluster(id, middle.expect_proxy, env)->Ok_0;
        match cluster {
            ClusterConfigModel::Http(http) => {
                lemma_http_placed(middle, http.frontends, file, env);
            },
            ClusterConfigModel::Tcp(tcp) => {
                lemma_tcp_placed(middle, tcp.frontends, file, env);
            },
        }
        lemma_extends_on(set, middle, next, file, env);
        assert forall|c: int| 0 <= c < clusters.len() implies is_cluster(
            placed[c],
            #[trigger] clusters[c],
            set.expect_proxy,
            env,
        ) by {
            if c < first.len() {
                assert(is_cluster(before[c], first[c], set.expect_proxy, env));
                assert(placed[c] == before[c]);
                assert(clusters[c] == first[c]);
            }
        }
    }
}

/// What the frontends of a TCP cluster become.
proof fn lemma_tcp_described(
    frontends: Seq<FileClusterFrontendConfigModel>,
    id: Seq<char>,
    expect_proxy: Seq<SocketAddress>,
)
    requires
        super::cluster::tcp_frontends(frontends, id, expect_proxy) is Ok,
    ensures
        ({
            let (expected, placed) = super::cluster::tcp_frontends(
                frontends,
                id,
                expect_proxy,
            )->Ok_0;
            &&& placed.len() == frontends.len()
            &&& frontends.len() == 0 ==> expected is None
            &&& forall|k: int|
                0 <= k < frontends.len() ==> {
                    &&& expected == Some(
                        expect_proxy.contains((#[trigger] frontends[k]).address),
                    )
                    &&& is_tcp_frontend(placed[k], frontends[k])
                }
        }),
    decreases frontends.len(),
{
    if frontends.len() > 0 {
        let first = frontends.drop_last();
        lemma_tcp_described(first, id, expect_proxy);
        let (before, placed) = super::cluster::tcp_frontends(first, id, expect_proxy)->Ok_0;
        let (expected, all) = super::cluster::tcp_frontends(frontends, id, expect_proxy)->Ok_0;
        assert forall|k: int| 0 <= k < frontends.len() implies expected == Some(
            expect_proxy.contains((#[trigger] frontends[k]).address),
        ) && is_tcp_frontend(all[k], frontends[k]) by {
            if k < first.len() {
                assert(first[k] == frontends[k]);
                assert(all[k] == placed[k]);
            }
        }
    }
}

/// What the frontends of an HTTP cluster become.
proof fn lemma_http_described(
    frontends: Seq<FileClusterFrontendConfigModel>,
    env: EnvironmentModel,
)
    requires
        super::cluster::http_frontends(frontends, env) is Ok,
    ensures
        ({
            let placed = super::cluster::http_frontends(frontends, env)->Ok_0;
            &&& placed.len() == frontends.len()
            &&& forall|k: int|
                0 <= k < frontends.len() ==> (#[trigger] frontends[k]).as_http(env) == Ok::<
                    HttpFrontendConfigModel,
                    super::error::ConfigErrorModel,
                >(placed[k])
        }),
    decreases frontends.len(),
{
    if frontends.len() > 0 {
        let first = frontends.drop_last();
        lemma_http_described(first, env);
        let before = super::cluster::http_frontends(first, env)->Ok_0;
        let placed = super::cluster::http_frontends(frontends, env)->Ok_0;
        assert forall|k: int| 0 <= k < frontends.len() implies (
        #[trigger] frontends[k]).as_http(env) == Ok::<
            HttpFrontendConfigModel,
            super::error::ConfigErrorModel,
        >(placed[k]) by {
            if k < first.len() {
                assert(first[k] == frontends[k]);
                assert(placed[k] == before[k]);
            }
        }
    }
}

/// The TCP frontend is the one that the file describes, without anything that only HTTP has.
pub open spec fn is_tcp_frontend(
    frontend: TcpFrontendConfigModel,
    described: FileClusterFrontendConfigModel,
) -> bool {
    &&& frontend.address == described.address
    &&& frontend.tags == described.tags
    &&& described.hostname is None
    &&& described.path is None
    &&& described.certificate is None
    &&& described.certificate_chain is None
}

/// The HTTP frontend is the one that the file describes. A path without a type is a prefix, and a
/// frontend without a path takes every one. Certificate, chain and key are what the named files hold;
/// without a certificate of its own the frontend may have got all three from a listener.
pub open spec fn is_http_frontend(
    frontend: HttpFrontendConfigModel,
    described: FileClusterFrontendConfigModel,
    env: EnvironmentModel,
) -> bool {
    &&& frontend.address == described.address
    &&& described.hostname == Some(frontend.hostname)
    &&& frontend.path == (match (described.path, described.path_type) {
        (None, _) => PathRuleModel::Prefix(Seq::empty()),
        (Some(path), None) => PathRuleModel::Prefix(path),
        (Some(path), Some(PathRuleType::Prefix)) => PathRuleModel::Prefix(path),
        (Some(path), Some(PathRuleType::Regex)) => PathRuleModel::Regex(path),
        (Some(path), Some(PathRuleType::Equals)) => PathRuleModel::Equals(path),
    })
    &&& frontend.method == described.method
    &&& frontend.tls_versions == described.tls_versions
    &&& frontend.position == described.position
    &&& frontend.tags == described.tags
    &&& described.certificate matches Some(path) ==> frontend.certificate is Some && holds(
        env.files,
        path,
        frontend.certificate->0,
    )
    &&& (described.certificate is Some || frontend.certificate is None) ==> {
        &&& is_text_at(env.files, described.key, frontend.key)
        &&& described.certificate_chain is None ==> frontend.certificate_chain is None
        &&& described.certificate_chain matches Some(path) ==> exists|chain: Seq<char>| #[trigger]
            holds(env.files, path, chain) && frontend.certificate_chain == Some(
                crate::certificate::certificates_from(chain, 0),
            )
    }
}

/// The parts of an accepted configuration.
proof fn lemma_accepted(file: FileConfigModel, config_path: Seq<char>, env: EnvironmentModel)
    requires
        file.as_config(config_path, env) is Ok,
    ensures
        ({
            let config = file.as_config(config_path, env)->Ok_0;
            let set = ListenerSetModel::from_listeners(
                listeners_of(file),
                file.timeouts(),
                env,
            );
            &&& set is Ok
            &&& set->Ok_0.with_clusters(clusters_of(file), file.timeouts(), env) is Ok
            &&& ({
                let (next, placed) = set->Ok_0.with_clusters(
                    clusters_of(file),
                    file.timeouts(),
                    env,
                )->Ok_0;
                &&& config.http_listeners == next.http
                &&& config.https_listeners == next.https
                &&& config.tcp_listeners == next.tcp
                &&& config.clusters == placed
            })
        }),
{
}

/// In an accepted configuration a TCP cluster reads the header of the proxy protocol exactly where a
/// listener of the file that expects it is at the address of its frontends, on which all of them
/// agree, and sends one exactly where the file says so. Without frontends no header is read.
pub proof fn law_proxy_protocol_follows_the_file(
    file: FileConfigModel,
    config_path: Seq<char>,
    env: EnvironmentModel,
    c: int,
)
    requires
        0 <= c < clusters_of(file).len(),
        clusters_of(file)[c].1.protocol == FileClusterProtocolConfig::Tcp,
    ensures
        file.as_config(config_path, env) matches Ok(config) ==> {
            let described = clusters_of(file)[c].1;
            &&& config.clusters.len() > c
            &&& config.clusters[c].1 matches ClusterConfigModel::Tcp(tcp) && {
                let reads = tcp.proxy_protocol == Some(ProxyProtocolConfig::ExpectHeader)
                    || tcp.proxy_protocol == Some(ProxyProtocolConfig::RelayHeader);
                let sends = tcp.proxy_protocol == Some(ProxyProtocolConfig::SendHeader)
                    || tcp.proxy_protocol == Some(ProxyProtocolConfig::RelayHeader);
                &&& sends <==> described.send_proxy == Some(true)
                &&& described.frontends.len() == 0 ==> !reads
                &&& forall|k: int|
                    0 <= k < described.frontends.len() ==> (reads <==> expects_header(
                        listeners_of(file),
                        (#[trigger] described.frontends[k]).address,
                    ))
            }
        },
{
    if file.as_config(config_path, env) is Ok {
        lemma_accepted(file, config_path, env);
        let listeners = listeners_of(file);
        lemma_listeners(listeners, file, env);
        let set = ListenerSetModel::from_listeners(listeners, file.timeouts(), env)->Ok_0;
        lemma_clusters_placed(set, clusters_of(file), file, env);
        let (id, described) = clusters_of(file)[c];
        let placed = set.with_clusters(clusters_of(file), file.timeouts(), env)->Ok_0.1;
        assert(is_cluster(placed[c], clusters_of(file)[c], set.expect_proxy, env));
        lemma_tcp_described(described.frontends, id, set.expect_proxy);
        let expected = super::cluster::tcp_frontends(
            described.frontends,
            id,
            set.expect_proxy,
        )->Ok_0.0;
        assert forall|k: int| 0 <= k < described.frontends.len() implies (expected == Some(true)
            <==> expects_header(listeners, (#[trigger] described.frontends[k]).address)) by {
            let address = described.frontends[k].address;
            assert(set.expect_proxy.contains(address) <==> expects_header(listeners, address));
        }
    }
}

/// An accepted configuration has a listener with all options of the file for each listener that the
/// file describes. Every other listener has no options but those for all listeners.
pub proof fn law_listeners_have_their_options(
    file: FileConfigModel,
    config_path: Seq<char>,
    env: EnvironmentModel,
)
    ensures
        file.as_config(config_path, env) matches Ok(config) ==> {
            &&& forall|i: int|
                0 <= i < listeners_of(file).len() ==> is_there(
                    config.http_listeners,
                    config.https_listeners,
                    config.tcp_listeners,
                    #[trigger] listeners_of(file)[i],
                    file,
                    env,
                )
            &&& forall|j: int|
                0 <= j < config.http_listeners.len() ==> is_default_http(
                    #[trigger] config.http_listeners[j],
                    file,
                    env,
                ) || is_described(listeners_of(file), config.http_listeners[j].address)
            &&& forall|j: int|
                0 <= j < config.https_listeners.len() ==> is_default_https(
                    #[trigger] config.https_listeners[j],
                    file,
                    env,
                ) || is_described(listeners_of(file), config.https_listeners[j].address)
            &&& forall|j: int|
                0 <= j < config.tcp_listeners.len() ==> is_default_tcp(
                    #[trigger] config.tcp_listeners[j],
                    file,
                ) || is_described(listeners_of(file), config.tcp_listeners[j].address)
        },
{
    if let Ok(config) = file.as_config(config_path, env) {
        lemma_accepted(file, config_path, env);
        let listeners = listeners_of(file);
        lemma_listeners(listeners, file, env);
        lemma_listeners_are_described(listeners, file, env);
        let set = ListenerSetModel::from_listeners(listeners, file.timeouts(), env)->Ok_0;
        lemma_clusters_placed(set, clusters_of(file), file, env);
        let next = set.with_clusters(clusters_of(file), file.timeouts(), env)->Ok_0.0;
        assert forall|i: int| 0 <= i < listeners.len() implies is_there(
            config.http_listeners,
            config.https_listeners,
            config.tcp_listeners,
            #[trigger] listeners[i],
            file,
            env,
        ) by {
            lemma_stays_there(set, next, listeners[i], file, env);
        }
        assert forall|j: int| 0 <= j < next.http.len() implies is_default_http(
            #[trigger] next.http[j],
            file,
            env,
        ) || is_described(listeners, next.http[j].address) by {
            if j < set.http.len() {
                assert(set.http[j] == next.http[j]);
            }
        }
        assert forall|j: int| 0 <= j < next.https.len() implies is_default_https(
            #[trigger] next.https[j],
            file,
            env,
        ) || is_described(listeners, next.https[j].address) by {
            if j < set.https.len() {
                assert(set.https[j] == next.https[j]);
            }
        }
        assert forall|j: int| 0 <= j < next.tcp.len() implies is_default_tcp(
            #[trigger] next.tcp[j],
            file,
        ) || is_described(listeners, next.tcp[j].address) by {
            if j < set.tcp.len() {
                assert(set.tcp[j] == next.tcp[j]);
            }
        }
    }
}

/// One of the listeners of the file is at `address`.
pub open spec fn is_described(listeners: Seq<ListenerModel>, address: SocketAddress) -> bool {
    exists|i: int| 0 <= i < listeners.len() && (#[trigger] listeners[i]).address == address
}

proof fn lemma_still_described(
    first: Seq<ListenerModel>,
    listeners: Seq<ListenerModel>,
    address: SocketAddress,
)
    requires
        listeners.len() > 0,
        first == listeners.drop_last(),
        is_described(first, address),
    ensures
        is_described(listeners, address),
{
    let i = choose|i: int| 0 <= i < first.len() && (#[trigger] first[i]).address == address;
    assert(listeners[i] == first[i]);
}

proof fn lemma_listeners_are_described(
    listeners: Seq<ListenerModel>,
    file: FileConfigModel,
    env: EnvironmentModel,
)
    requires
        ListenerSetModel::from_listeners(listeners, file.timeouts(), env) is Ok,
    ensures
        ({
            let set = ListenerSetModel::from_listeners(listeners, file.timeouts(), env)->Ok_0;
            &&& forall|j: int|
                0 <= j < set.http.len() ==> is_described(
                    listeners,
                    (#[trigger] set.http[j]).address,
                )
            &&& forall|j: int|
                0 <= j < set.https.len() ==> is_described(
                    listeners,
                    (#[trigger] set.https[j]).address,
                )
            &&& forall|j: int|
                0 <= j < set.tcp.len() ==> is_described(listeners, (#[trigger] set.tcp[j]).address)
        }),
    decreases listeners.len(),
{
    if listeners.len() > 0 {
        let first = listeners.drop_last();
        lemma_listeners_are_described(first, file, env);
        let set = ListenerSetModel::from_listeners(first, file.timeouts(), env)->Ok_0;
        let next = ListenerSetModel::from_listeners(listeners, file.timeouts(), env)->Ok_0;
        lemma_built(listeners.last(), file, env);
        assert(listeners[listeners.len() - 1] == listeners.last());
        assert forall|j: int| 0 <= j < next.http.len() implies is_described(
            listeners,
            (#[trigger] next.http[j]).address,
        ) by {
            if j < set.http.len() {
                assert(set.http[j] == next.http[j]);
                lemma_still_described(first, listeners, set.http[j].address);
            }
        }
        assert forall|j: int| 0 <= j < next.https.len() implies is_described(
            listeners,
            (#[trigger] next.https[j]).address,
        ) by {
            if j < set.https.len() {
                assert(set.https[j] == next.https[j]);
                lemma_still_described(first, listeners, set.https[j].address);
            }
        }
        assert forall|j: int| 0 <= j < next.tcp.len() implies is_described(
            listeners,
            (#[trigger] next.tcp[j]).address,
        ) by {
            if j < set.tcp.len() {
                assert(set.tcp[j] == next.tcp[j]);
                lemma_still_described(first, listeners, set.tcp[j].address);
            }
        }
    }
}

/// Every cluster of an accepted configuration is the one that the file describes in its place, with
/// its identifier, its options, its backends and its frontends.
pub proof fn law_clusters_have_their_options(
    file: FileConfigModel,
    config_path: Seq<char>,
    env: EnvironmentModel,
    c: int,
)
    requires
        0 <= c < clusters_of(file).len(),
    ensures
        file.as_config(config_path, env) matches Ok(config) ==> {
            let (id, described) = clusters_of(file)[c];
            &&& config.clusters.len() == clusters_of(file).len()
            &&& config.clusters[c].0 == id
            &&& match config.clusters[c].1 {
                ClusterConfigModel::Http(http) => {
                    &&& described.protocol == FileClusterProtocolConfig::Http
                    &&& http.cluster_id == id
                    &&& http.backends == described.backends
                    &&& http.load_balancing == described.load_balancing
                    &&& http.load_metric == described.load_metric
                    &&& http.sticky_session <==> described.sticky_session == Some(true)
                    &&& http.https_redirect <==> described.https_redirect == Some(true)
                    &&& is_text_at(env.files, described.answer_503, http.answer_503)
                    &&& http.frontends.len() == described.frontends.len()
                    &&& forall|k: int|
                        0 <= k < described.frontends.len() ==> is_http_frontend(
                            http.frontends[k],
                            #[trigger] described.frontends[k],
                            env,
                        )
                },
                ClusterConfigModel::Tcp(tcp) => {
                    &&& described.protocol == FileClusterProtocolConfig::Tcp
                    &&& tcp.cluster_id == id
                    &&& tcp.backends == described.backends
                    &&& tcp.load_balancing == described.load_balancing
                    &&& tcp.load_metric == described.load_metric
                    &&& tcp.frontends.len() == described.frontends.len()
                    &&& forall|k: int|
                        0 <= k < described.frontends.len() ==> is_tcp_frontend(
                            tcp.frontends[k],
                            #[trigger] described.frontends[k],
                        )
                },
            }
        },
{
    if file.as_config(config_path, env) is Ok {
        lemma_accepted(file, config_path, env);
        let set = ListenerSetModel::from_listeners(listeners_of(file), file.timeouts(), env)->Ok_0;
        lemma_clusters_placed(set, clusters_of(file), file, env);
        let (id, described) = clusters_of(file)[c];
        let placed = set.with_clusters(clusters_of(file), file.timeouts(), env)->Ok_0.1;
        assert(is_cluster(placed[c], clusters_of(file)[c], set.expect_proxy, env));
        lemma_text_at(env.files, described.answer_503);
        match described.protocol {
            FileClusterProtocolConfig::Http => {
                lemma_http_described(described.frontends, env);
                let wanted = super::cluster::http_frontends(described.frontends, env)->Ok_0;
                let http = placed[c].1->Http_0;
                assert forall|k: int| 0 <= k < described.frontends.len() implies is_http_frontend(
                    http.frontends[k],
                    #[trigger] described.frontends[k],
                    env,
                ) by {
                    assert(is_placed(http.frontends[k], wanted[k]));
                    lemma_http_frontend_described(
                        http.frontends[k],
                        wanted[k],
                        described.frontends[k],
                        env,
                    );
                }
            },
            FileClusterProtocolConfig::Tcp => {
                lemma_tcp_described(described.frontends, id, set.expect_proxy);
            },
        }
    }
}

proof fn lemma_http_frontend_described(
    placed: HttpFrontendConfigModel,
    wanted: HttpFrontendConfigModel,
    described: FileClusterFrontendConfigModel,
    env: EnvironmentModel,
)
    requires
        is_placed(placed, wanted),
        described.as_http(env) == Ok::<HttpFrontendConfigModel, super::error::ConfigErrorModel>(
            wanted,
        ),
    ensures
        is_http_frontend(placed, described, env),
{
    lemma_text_at(env.files, described.certificate);
    lemma_text_at(env.files, described.key);
    lemma_text_at(env.files, described.certificate_chain);
    if let Some(path) = described.certificate_chain {
        let chain = super::environment::text_at(env.files, described.certificate_chain)->0;
        assert(holds(env.files, path, chain));
    }
}

/// The option of the file, or the default.
pub open spec fn is_option<T>(value: T, given: Option<T>, default: T) -> bool {
    &&& given is Some ==> value == given->0
    &&& given is None ==> value == default
}

/// An accepted configuration has the options of the file, and the defaults where the file has none.
/// There are never more buffers at the start than at most.
pub proof fn law_options_are_those_of_the_file(
    file: FileConfigModel,
    config_path: Seq<char>,
    env: EnvironmentModel,
)
    ensures
        file.as_config(config_path, env) matches Ok(config) ==> {
            &&& config.config_path == config_path
            &&& file.command_socket matches Some(path) ==> config.command_socket == path
            &&& file.command_socket is None ==> (env.current_dir matches CurrentDirModel::Known(dir)
                && config.command_socket == crate::path::inside(dir, "sozu.sock"@))
            &&& is_option(config.command_buffer_size, file.command_buffer_size, 1_000_000)
            &&& file.max_command_buffer_size matches Some(n) ==> config.max_command_buffer_size
                == n
            &&& file.max_command_buffer_size is None && config.command_buffer_size * 2
                <= usize::MAX ==> config.max_command_buffer_size == config.command_buffer_size * 2
            &&& is_option(config.max_connections, file.max_connections, 10000)
            &&& is_option(config.max_buffers, file.max_buffers, 1000)
            &&& config.min_buffers <= config.max_buffers
            &&& file.min_buffers matches Some(n) ==> (n <= config.max_buffers
                ==> config.min_buffers == n)
            &&& file.min_buffers is None && 1 <= config.max_buffers ==> config.min_buffers == 1
            &&& (file.min_buffers matches Some(n) ==> n > config.max_buffers) && (
            file.min_buffers is None ==> 1 > config.max_buffers) ==> config.min_buffers
                == config.max_buffers
            &&& is_option(config.buffer_size, file.buffer_size, 16393)
            &&& config.saved_state == file.saved_state
            &&& config.automatic_state_save <==> file.automatic_state_save == Some(true)
            &&& config.automatic_state_save ==> config.saved_state is Some
            &&& is_option(config.log_level, file.log_level, "info"@)
            &&& is_option(config.log_target, file.log_target, "stdout"@)
            &&& config.log_access_target == file.log_access_target
            &&& is_option(config.worker_count, file.worker_count, 2)
            &&& is_option(config.worker_automatic_restart, file.worker_automatic_restart, true)
            &&& config.metrics == file.metrics
            &&& config.handle_process_affinity <==> file.handle_process_affinity == Some(true)
            &&& is_option(config.ctl_command_timeout, file.ctl_command_timeout, 1000)
            &&& config.pid_file_path == file.pid_file_path
            &&& is_option(config.activate_listeners, file.activate_listeners, true)
            &&& is_option(config.front_timeout, file.front_timeout, 60)
            &&& is_option(config.back_timeout, file.front_timeout, 30)
            &&& is_option(config.connect_timeout, file.front_timeout, 3)
            &&& is_option(config.zombie_check_interval, file.zombie_check_interval, 1800)
            &&& is_option(config.accept_queue_timeout, file.accept_queue_timeout, 60)
        },
{
}

} // verus!
