//! Clusters of the configuration file.
use vstd::prelude::*;
use vstd::string::*;

use crate::address::SocketAddress;
use crate::certificate::split_certificate_chain;
use crate::proxy::{PathRule, PathRuleModel, ProxyProtocolConfig};

use super::environment::{Environment, EnvironmentModel};
use super::error::{
    ConfigError, ConfigErrorModel, ErrorCause, ErrorCauseModel, ErrorContext, ErrorContextModel,
};
use super::types::{
    ClusterConfig, ClusterConfigModel, FileClusterConfig, FileClusterConfigModel,
    FileClusterFrontendConfig, FileClusterFrontendConfigModel, FileClusterProtocolConfig,
    HttpClusterConfig, HttpClusterConfigModel, HttpFrontendConfig, HttpFrontendConfigModel,
    PathRuleType, TcpClusterConfig, TcpClusterConfigModel, TcpFrontendConfig,
    TcpFrontendConfigModel,
};

verus! {

impl FileClusterFrontendConfigModel {
    /// The TCP frontend, or the first of the fields that it may not have.
    pub open spec fn as_tcp(self) -> Result<TcpFrontendConfigModel, ConfigErrorModel> {
        if self.hostname is Some {
            Err(ConfigErrorModel::bare(ErrorCauseModel::TcpHostname))
        } else if self.path is Some {
            Err(ConfigErrorModel::bare(ErrorCauseModel::TcpPath))
        } else if self.certificate is Some {
            Err(ConfigErrorModel::bare(ErrorCauseModel::TcpCertificate))
        } else if self.certificate_chain is Some {
            Err(ConfigErrorModel::bare(ErrorCauseModel::TcpCertificateChain))
        } else {
            Ok(TcpFrontendConfigModel { address: self.address, tags: self.tags })
        }
    }

    /// The path rule: a path without a type is a prefix, and no path matches every one.
    pub open spec fn path_rule(self) -> PathRuleModel {
        match self.path {
            None => PathRuleModel::Prefix(Seq::empty()),
            Some(path) => match self.path_type {
                Some(PathRuleType::Regex) => PathRuleModel::Regex(path),
                Some(PathRuleType::Equals) => PathRuleModel::Equals(path),
                _ => PathRuleModel::Prefix(path),
            },
        }
    }

    /// The first of the key, the certificate and the chain whose file is named and cannot be read.
    pub open spec fn unreadable_file(self, env: EnvironmentModel) -> Option<ErrorCauseModel> {
        let text = |path: Option<Seq<char>>| crate::config::environment::text_at(env.files, path);
        let cause = |path: Option<Seq<char>>|
            crate::config::environment::file_at(env.files, path->0).failure();
        if self.key is Some && text(self.key) is None {
            Some(ErrorCauseModel::LoadKey { path: self.key->0, cause: cause(self.key) })
        } else if self.certificate is Some && text(self.certificate) is None {
            Some(
                ErrorCauseModel::LoadCertificate {
                    path: self.certificate->0,
                    cause: cause(self.certificate),
                },
            )
        } else if self.certificate_chain is Some && text(self.certificate_chain) is None {
            Some(
                ErrorCauseModel::LoadCertificateChain {
                    path: self.certificate_chain->0,
                    cause: cause(self.certificate_chain),
                },
            )
        } else {
            None
        }
    }

    /// The HTTP frontend: it needs a hostname, and every file that it names has to be readable.
    pub open spec fn as_http(self, env: EnvironmentModel) -> Result<
        HttpFrontendConfigModel,
        ConfigErrorModel,
    > {
        if self.hostname is None {
            Err(ConfigErrorModel::bare(ErrorCauseModel::MissingHostname))
        } else {
            match self.unreadable_file(env) {
                Some(cause) => Err(ConfigErrorModel::bare(cause)),
                None => Ok(
                    HttpFrontendConfigModel {
                        address: self.address,
                        hostname: self.hostname->0,
                        path: self.path_rule(),
                        method: self.method,
                        certificate: crate::config::environment::text_at(
                            env.files,
                            self.certificate,
                        ),
                        key: crate::config::environment::text_at(env.files, self.key),
                        certificate_chain: match crate::config::environment::text_at(
                            env.files,
                            self.certificate_chain,
                        ) {
                            Some(chain) => Some(crate::certificate::certificates_from(chain, 0)),
                            None => None,
                        },
                        tls_versions: self.tls_versions,
                        position: self.position,
                        tags: self.tags,
                    },
                ),
            }
        }
    }
}

impl FileClusterFrontendConfig {
    /// The TCP frontend that this one describes. It may have no hostname, path, certificate or
    /// certificate chain.
    pub fn to_tcp_front(&self) -> (r: Result<TcpFrontendConfig, ConfigError>)
        ensures
            crate::config::listener::outcome(r) == self.deep_view().as_tcp(),
    {
        if self.hostname.is_some() {
            return Err(ConfigError::new(ErrorCause::TcpHostname));
        }
        if self.path.is_some() {
            return Err(ConfigError::new(ErrorCause::TcpPath));
        }
        if self.certificate.is_some() {
            return Err(ConfigError::new(ErrorCause::TcpCertificate));
        }
        if self.certificate_chain.is_some() {
            return Err(ConfigError::new(ErrorCause::TcpCertificateChain));
        }
        Ok(TcpFrontendConfig { address: self.address, tags: self.tags.clone() })
    }

    /// The HTTP frontend that this one describes. It needs a hostname, and the files that it names
    /// have to be readable.
    pub fn to_http_front(&self, _cluster_id: &str, env: &Environment) -> (r: Result<
        HttpFrontendConfig,
        ConfigError,
    >)
        ensures
            crate::config::listener::outcome(r) == self.deep_view().as_http(env.deep_view()),
    {
        let hostname = match &self.hostname {
            Some(hostname) => hostname.clone(),
            None => {
                return Err(ConfigError::new(ErrorCause::MissingHostname));
            },
        };
        let key = match &self.key {
            None => None,
            Some(path) => match env.load(path) {
                Ok(key) => Some(key),
                Err(cause) => {
                    return Err(
                        ConfigError::new(ErrorCause::LoadKey { path: path.clone(), cause }),
                    );
                },
            },
        };
        let certificate = match &self.certificate {
            None => None,
            Some(path) => match env.load(path) {
                Ok(certificate) => Some(certificate),
                Err(cause) => {
                    return Err(
                        ConfigError::new(ErrorCause::LoadCertificate { path: path.clone(), cause }),
                    );
                },
            },
        };
        let certificate_chain = match &self.certificate_chain {
            None => None,
            Some(path) => match env.load(path) {
                Ok(chain) => Some(split_certificate_chain(chain)),
                Err(cause) => {
                    return Err(
                        ConfigError::new(
                            ErrorCause::LoadCertificateChain { path: path.clone(), cause },
                        ),
                    );
                },
            },
        };
        let path = match (&self.path, self.path_type) {
            (None, _) => PathRule::Prefix(String::new()),
            (Some(s), Some(PathRuleType::Prefix)) => PathRule::Prefix(s.clone()),
            (Some(s), Some(PathRuleType::Regex)) => PathRule::Regex(s.clone()),
            (Some(s), Some(PathRuleType::Equals)) => PathRule::Equals(s.clone()),
            (Some(s), None) => PathRule::Prefix(s.clone()),
        };
        let frontend = HttpFrontendConfig {
            address: self.address,
            hostname,
            path,
            method: self.method.clone(),
            certificate,
            key,
            certificate_chain,
            tls_versions: self.tls_versions.clone(),
            position: self.position,
            tags: self.tags.clone(),
        };
        proof {
            assert(frontend.tls_versions.deep_view() =~= self.tls_versions.deep_view());
        }
        Ok(frontend)
    }
}

/// The TCP frontends of the file's frontends, with whether their listeners expect the proxy
/// protocol (nothing where there is no frontend). The listeners of one cluster have to agree on
/// that; the first frontend that disagrees with those before it, or is no TCP frontend, is refused.
pub open spec fn tcp_frontends(
    frontends: Seq<FileClusterFrontendConfigModel>,
    cluster_id: Seq<char>,
    expect_proxy: Seq<SocketAddress>,
) -> Result<(Option<bool>, Seq<TcpFrontendConfigModel>), ConfigErrorModel>
    decreases frontends.len(),
{
    if frontends.len() == 0 {
        Ok((None, Seq::empty()))
    } else {
        match tcp_frontends(frontends.drop_last(), cluster_id, expect_proxy) {
            Err(e) => Err(e),
            Ok((expected, before)) => {
                let expects = expect_proxy.contains(frontends.last().address);
                if expected == Some(!expects) {
                    Err(
                        ConfigErrorModel::bare(ErrorCauseModel::MixedExpectProxy { cluster_id }),
                    )
                } else {
                    match frontends.last().as_tcp() {
                        Err(e) => Err(e),
                        Ok(frontend) => Ok((Some(expects), before.push(frontend))),
                    }
                }
            },
        }
    }
}

/// The HTTP frontends of the file's frontends; the first one that is no HTTP frontend is refused.
pub open spec fn http_frontends(
    frontends: Seq<FileClusterFrontendConfigModel>,
    env: EnvironmentModel,
) -> Result<Seq<HttpFrontendConfigModel>, ConfigErrorModel>
    decreases frontends.len(),
{
    if frontends.len() == 0 {
        Ok(Seq::empty())
    } else {
        match http_frontends(frontends.drop_last(), env) {
            Err(e) => Err(e),
            Ok(before) => match frontends.last().as_http(env) {
                Err(e) => Err(e.within(ErrorContextModel::HttpFrontend)),
                Ok(frontend) => Ok(before.push(frontend)),
            },
        }
    }
}

/// What a TCP cluster does about the proxy protocol header.
pub open spec fn proxy_protocol(send: bool, expect: bool) -> Option<ProxyProtocolConfig> {
    if send && expect {
        Some(ProxyProtocolConfig::RelayHeader)
    } else if send {
        Some(ProxyProtocolConfig::SendHeader)
    } else if expect {
        Some(ProxyProtocolConfig::ExpectHeader)
    } else {
        None
    }
}

impl FileClusterConfigModel {
    /// The cluster that the file describes.
    pub open spec fn as_cluster(
        self,
        cluster_id: Seq<char>,
        expect_proxy: Seq<SocketAddress>,
        env: EnvironmentModel,
    ) -> Result<ClusterConfigModel, ConfigErrorModel> {
        match self.protocol {
            FileClusterProtocolConfig::Tcp => match tcp_frontends(
                self.frontends,
                cluster_id,
                expect_proxy,
            ) {
                Err(e) => Err(e),
                Ok((expected, frontends)) => Ok(
                    ClusterConfigModel::Tcp(
                        TcpClusterConfigModel {
                            cluster_id,
                            frontends,
                            backends: self.backends,
                            proxy_protocol: proxy_protocol(
                                crate::config::listener::is_set(self.send_proxy),
                                crate::config::listener::is_set(expected),
                            ),
                            load_balancing: self.load_balancing,
                            load_metric: self.load_metric,
                        },
                    ),
                ),
            },
            FileClusterProtocolConfig::Http => match http_frontends(self.frontends, env) {
                Err(e) => Err(e),
                Ok(frontends) => Ok(
                    ClusterConfigModel::Http(
                        HttpClusterConfigModel {
                            cluster_id,
                            frontends,
                            backends: self.backends,
                            sticky_session: crate::config::listener::is_set(self.sticky_session),
                            https_redirect: crate::config::listener::is_set(self.https_redirect),
                            load_balancing: self.load_balancing,
                            load_metric: self.load_metric,
                            answer_503: crate::config::environment::text_at(
                                env.files,
                                self.answer_503,
                            ),
                        },
                    ),
                ),
            },
        }
    }
}

/// Tells whether `address` is among `addresses`.
pub fn has_address(addresses: &Vec<SocketAddress>, address: SocketAddress) -> (r: bool)
    ensures
        r == addresses@.contains(address),
{
    let mut i: usize = 0;
    while i < addresses.len()
        invariant
            i <= addresses.len(),
            forall|k: int| 0 <= k < i ==> addresses@[k] != address,
        decreases addresses.len() - i,
    {
        if addresses[i] == address {
            return true;
        }
        i = i + 1;
    }
    false
}

impl FileClusterConfig {
    /// The cluster that this one describes, under the identifier `cluster_id`. `expect_proxy` lists
    /// the addresses whose listeners expect the proxy protocol.
    pub fn to_cluster_config(
        self,
        cluster_id: &str,
        expect_proxy: &Vec<SocketAddress>,
        env: &Environment,
    ) -> (r: Result<ClusterConfig, ConfigError>)
        ensures
            crate::config::listener::outcome(r) == self.deep_view().as_cluster(
                cluster_id@,
                expect_proxy@,
                env.deep_view(),
            ),
    {
        match self.protocol {
            FileClusterProtocolConfig::Tcp => {
                let mut has_expect_proxy: Option<bool> = None;
                let mut frontends: Vec<TcpFrontendConfig> = Vec::new();
                let mut i: usize = 0;
                let ghost described = self.frontends.deep_view();
                proof {
                    assert(described.take(0) =~= Seq::empty());
                    assert(frontends.deep_view() =~= Seq::empty());
                }
                while i < self.frontends.len()
                    invariant
                        i <= self.frontends.len(),
                        described == self.frontends.deep_view(),
                        tcp_frontends(described.take(i as int), cluster_id@, expect_proxy@) == Ok::<
                            (Option<bool>, Seq<TcpFrontendConfigModel>),
                            ConfigErrorModel,
                        >((has_expect_proxy, frontends.deep_view())),
                        self.deep_view().as_cluster(cluster_id@, expect_proxy@, env.deep_view())
                            is Ok ==> tcp_frontends(described, cluster_id@, expect_proxy@) is Ok,
                        tcp_frontends(described, cluster_id@, expect_proxy@) is Err
                            ==> self.deep_view().as_cluster(
                            cluster_id@,
                            expect_proxy@,
                            env.deep_view(),
                        ) == Err::<ClusterConfigModel, ConfigErrorModel>(
                            tcp_frontends(described, cluster_id@, expect_proxy@)->Err_0,
                        ),
                    decreases self.frontends.len() - i,
                {
                    let frontend = &self.frontends[i];
                    let expects = has_address(expect_proxy, frontend.address);
                    proof {
                        assert(described.take(i + 1).drop_last() =~= described.take(i as int));
                        assert(described.take(i + 1).last() == frontend.deep_view());
                    }
                    let ghost before = frontends.deep_view();
                    let mixed = match has_expect_proxy {
                        Some(expected) => expected != expects,
                        None => false,
                    };
                    if mixed {
                        proof {
                            lemma_tcp_error_stays(
                                described,
                                i + 1,
                                cluster_id@,
                                expect_proxy@,
                            );
                        }
                        return Err(
                            ConfigError::new(
                                ErrorCause::MixedExpectProxy { cluster_id: cluster_id.to_owned() },
                            ),
                        );
                    }
                    has_expect_proxy = Some(expects);
                    match frontend.to_tcp_front() {
                        Err(e) => {
                            proof {
                                lemma_tcp_error_stays(
                                    described,
                                    i + 1,
                                    cluster_id@,
                                    expect_proxy@,
                                );
                            }
                            return Err(e);
                        },
                        Ok(tcp_frontend) => {
                            frontends.push(tcp_frontend);
                            proof {
                                assert(frontends.deep_view() =~= before.push(
                                    tcp_frontend.deep_view(),
                                ));
                            }
                        },
                    }
                    i = i + 1;
                }
                proof {
                    assert(described.take(described.len() as int) =~= described);
                }
                let send_proxy = self.send_proxy.unwrap_or(false);
                let expect_proxy = has_expect_proxy.unwrap_or(false);
                let proxy_protocol = match (send_proxy, expect_proxy) {
                    (true, true) => Some(ProxyProtocolConfig::RelayHeader),
                    (true, false) => Some(ProxyProtocolConfig::SendHeader),
                    (false, true) => Some(ProxyProtocolConfig::ExpectHeader),
                    (false, false) => None,
                };
                Ok(
                    ClusterConfig::Tcp(
                        TcpClusterConfig {
                            cluster_id: cluster_id.to_owned(),
                            frontends,
                            backends: self.backends,
                            proxy_protocol,
                            load_balancing: self.load_balancing,
                            load_metric: self.load_metric,
                        },
                    ),
                )
            },
            FileClusterProtocolConfig::Http => {
                let mut frontends: Vec<HttpFrontendConfig> = Vec::new();
                let mut i: usize = 0;
                let ghost described = self.frontends.deep_view();
                proof {
                    assert(described.take(0) =~= Seq::empty());
                    assert(frontends.deep_view() =~= Seq::empty());
                }
                while i < self.frontends.len()
                    invariant
                        i <= self.frontends.len(),
                        described == self.frontends.deep_view(),
                        http_frontends(described.take(i as int), env.deep_view()) == Ok::<
                            Seq<HttpFrontendConfigModel>,
                            ConfigErrorModel,
                        >(frontends.deep_view()),
                        http_frontends(described, env.deep_view()) is Err
                            ==> self.deep_view().as_cluster(
                            cluster_id@,
                            expect_proxy@,
                            env.deep_view(),
                        ) == Err::<ClusterConfigModel, ConfigErrorModel>(
                            http_frontends(described, env.deep_view())->Err_0,
                        ),
                    decreases self.frontends.len() - i,
                {
                    let frontend = &self.frontends[i];
                    let ghost before = frontends.deep_view();
                    proof {
                        assert(described.take(i + 1).drop_last() =~= described.take(i as int));
                        assert(described.take(i + 1).last() == frontend.deep_view());
                    }
                    match frontend.to_http_front(cluster_id, env) {
                        Err(e) => {
                            proof {
                                lemma_http_error_stays(described, i + 1, env.deep_view());
                            }
                            return Err(e.with_context(ErrorContext::HttpFrontend));
                        },
                        Ok(http_frontend) => {
                            frontends.push(http_frontend);
                            proof {
                                assert(frontends.deep_view() =~= before.push(
                                    http_frontend.deep_view(),
                                ));
                            }
                        },
                    }
                    i = i + 1;
                }
                proof {
                    assert(described.take(described.len() as int) =~= described);
                }
                let answer_503 = env.load_if_possible(&self.answer_503);
                Ok(
                    ClusterConfig::Http(
                        HttpClusterConfig {
                            cluster_id: cluster_id.to_owned(),
                            frontends,
                            backends: self.backends,
                            sticky_session: self.sticky_session.unwrap_or(false),
                            https_redirect: self.https_redirect.unwrap_or(false),
                            load_balancing: self.load_balancing,
                            load_metric: self.load_metric,
                            answer_503,
                        },
                    ),
                )
            },
        }
    }
}

/// What refuses the first `n` frontends refuses them all.
proof fn lemma_tcp_error_stays(
    frontends: Seq<FileClusterFrontendConfigModel>,
    n: int,
    cluster_id: Seq<char>,
    expect_proxy: Seq<SocketAddress>,
)
    requires
        0 <= n <= frontends.len(),
        tcp_frontends(frontends.take(n), cluster_id, expect_proxy) is Err,
    ensures
        tcp_frontends(frontends, cluster_id, expect_proxy) == tcp_frontends(
            frontends.take(n),
            cluster_id,
            expect_proxy,
        ),
    decreases frontends.len(),
{
    if n == frontends.len() {
        assert(frontends.take(n) =~= frontends);
    } else {
        assert(frontends.drop_last().take(n) =~= frontends.take(n));
        lemma_tcp_error_stays(frontends.drop_last(), n, cluster_id, expect_proxy);
    }
}

/// What refuses the first `n` frontends refuses them all.
proof fn lemma_http_error_stays(
    frontends: Seq<FileClusterFrontendConfigModel>,
    n: int,
    env: EnvironmentModel,
)
    requires
        0 <= n <= frontends.len(),
        http_frontends(frontends.take(n), env) is Err,
    ensures
        http_frontends(frontends, env) == http_frontends(frontends.take(n), env),
    decreases frontends.len(),
{
    if n == frontends.len() {
        assert(frontends.take(n) =~= frontends);
    } else {
        assert(frontends.drop_last().take(n) =~= frontends.take(n));
        lemma_http_error_stays(frontends.drop_last(), n, env);
    }
}

} // verus!
