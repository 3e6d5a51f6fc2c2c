//! Listeners of the configuration file.
use vstd::prelude::*;
use vstd::string::*;

use crate::address::SocketAddress;
use crate::certificate::split_certificate_chain;
use crate::proxy::{
    HttpListenerConfig, HttpListenerConfigModel, HttpsListenerConfig, HttpsListenerConfigModel,
    TcpListenerConfig, TcpListenerConfigModel, TlsVersion,
};

use super::environment::{Environment, EnvironmentModel, FileContent, FileContentModel};
use super::error::{
    ConfigError, ConfigErrorModel, ErrorCause, ErrorCauseModel, ErrorContext, ErrorContextModel,
};
use super::types::{FileListenerProtocolConfig, Listener, ListenerModel};

verus! {

/// What came out of a step of the configuration, as mathematical values.
pub open spec fn outcome<T: DeepView>(r: Result<T, ConfigError>) -> Result<
    T::V,
    ConfigErrorModel,
> {
    match r {
        Ok(value) => Ok(value.deep_view()),
        Err(error) => Err(error.deep_view()),
    }
}

/// All supported cipher suites of the TLS provider, which supports only strongly secure ones.
pub open spec fn rustls_cipher_list() -> Seq<Seq<char>> {
    seq![
        "TLS13_AES_256_GCM_SHA384"@,
        "TLS13_AES_128_GCM_SHA256"@,
        "TLS13_CHACHA20_POLY1305_SHA256"@,
        "TLS_ECDHE_ECDSA_WITH_AES_256_GCM_SHA384"@,
        "TLS_ECDHE_ECDSA_WITH_AES_128_GCM_SHA256"@,
        "TLS_ECDHE_ECDSA_WITH_CHACHA20_POLY1305_SHA256"@,
        "TLS_ECDHE_RSA_WITH_AES_256_GCM_SHA384"@,
        "TLS_ECDHE_RSA_WITH_AES_128_GCM_SHA256"@,
        "TLS_ECDHE_RSA_WITH_CHACHA20_POLY1305_SHA256"@,
    ]
}

pub open spec fn cipher_suites() -> Seq<Seq<char>> {
    seq![
        "TLS_AES_256_GCM_SHA384"@,
        "TLS_AES_128_GCM_SHA256"@,
        "TLS_AES_128_CCM_SHA256"@,
        "TLS_CHACHA20_POLY1305_SHA256"@,
    ]
}

pub open spec fn signature_algorithms() -> Seq<Seq<char>> {
    seq![
        "ECDSA+SHA256"@,
        "ECDSA+SHA384"@,
        "ECDSA+SHA512"@,
        "RSA+SHA256"@,
        "RSA+SHA384"@,
        "RSA+SHA512"@,
        "RSA-PSS+SHA256"@,
        "RSA-PSS+SHA384"@,
        "RSA-PSS+SHA512"@,
    ]
}

pub open spec fn groups_list() -> Seq<Seq<char>> {
    seq!["P-521"@, "P-384"@, "P-256"@, "x25519"@]
}

/// The cipher suites of a listener that lists none.
pub fn default_rustls_cipher_list() -> (r: Vec<String>)
    ensures
        r.deep_view() == rustls_cipher_list(),
{
    let mut r: Vec<String> = Vec::new();
    r.push("TLS13_AES_256_GCM_SHA384".to_owned());
    r.push("TLS13_AES_128_GCM_SHA256".to_owned());
    r.push("TLS13_CHACHA20_POLY1305_SHA256".to_owned());
    r.push("TLS_ECDHE_ECDSA_WITH_AES_256_GCM_SHA384".to_owned());
    r.push("TLS_ECDHE_ECDSA_WITH_AES_128_GCM_SHA256".to_owned());
    r.push("TLS_ECDHE_ECDSA_WITH_CHACHA20_POLY1305_SHA256".to_owned());
    r.push("TLS_ECDHE_RSA_WITH_AES_256_GCM_SHA384".to_owned());
    r.push("TLS_ECDHE_RSA_WITH_AES_128_GCM_SHA256".to_owned());
    r.push("TLS_ECDHE_RSA_WITH_CHACHA20_POLY1305_SHA256".to_owned());
    proof {
        assert(r.deep_view() =~= rustls_cipher_list());
    }
    r
}

/// The names of the cipher suites of TLS 1.3.
pub fn default_cipher_suites() -> (r: Vec<String>)
    ensures
        r.deep_view() == cipher_suites(),
{
    let mut r: Vec<String> = Vec::new();
    r.push("TLS_AES_256_GCM_SHA384".to_owned());
    r.push("TLS_AES_128_GCM_SHA256".to_owned());
    r.push("TLS_AES_128_CCM_SHA256".to_owned());
    r.push("TLS_CHACHA20_POLY1305_SHA256".to_owned());
    proof {
        assert(r.deep_view() =~= cipher_suites());
    }
    r
}

/// The signature algorithms that are offered.
pub fn default_signature_algorithms() -> (r: Vec<String>)
    ensures
        r.deep_view() == signature_algorithms(),
{
    let mut r: Vec<String> = Vec::new();
    r.push("ECDSA+SHA256".to_owned());
    r.push("ECDSA+SHA384".to_owned());
    r.push("ECDSA+SHA512".to_owned());
    r.push("RSA+SHA256".to_owned());
    r.push("RSA+SHA384".to_owned());
    r.push("RSA+SHA512".to_owned());
    r.push("RSA-PSS+SHA256".to_owned());
    r.push("RSA-PSS+SHA384".to_owned());
    r.push("RSA-PSS+SHA512".to_owned());
    proof {
        assert(r.deep_view() =~= signature_algorithms());
    }
    r
}

/// The groups that are offered for the key exchange.
pub fn default_groups_list() -> (r: Vec<String>)
    ensures
        r.deep_view() == groups_list(),
{
    let mut r: Vec<String> = Vec::new();
    r.push("P-521".to_owned());
    r.push("P-384".to_owned());
    r.push("P-256".to_owned());
    r.push("x25519".to_owned());
    proof {
        assert(r.deep_view() =~= groups_list());
    }
    r
}

/// The name of the cookie that ties a client to a backend.
pub fn default_sticky_name() -> (r: String)
    ensures
        r@ == "SOZUBALANCEID"@,
{
    "SOZUBALANCEID".to_owned()
}

/// The first of the listener's own timeout, the one for all listeners and the default.
pub open spec fn timeout(own: Option<u32>, general: Option<u32>, default: u32) -> u32 {
    match own {
        Some(t) => t,
        None => match general {
            Some(t) => t,
            None => default,
        },
    }
}

fn pick_timeout(own: Option<u32>, general: Option<u32>, default: u32) -> (r: u32)
    ensures
        r == timeout(own, general, default),
{
    match own {
        Some(t) => t,
        None => match general {
            Some(t) => t,
            None => default,
        },
    }
}

/// The option, where it is given and set.
pub open spec fn is_set(option: Option<bool>) -> bool {
    option == Some(true)
}

impl ListenerModel {
    /// A listener with no option set.
    pub open spec fn plain(
        address: SocketAddress,
        protocol: FileListenerProtocolConfig,
    ) -> ListenerModel {
        ListenerModel {
            address,
            protocol,
            public_address: None,
            answer_404: None,
            answer_503: None,
            tls_versions: None,
            cipher_list: None,
            expect_proxy: None,
            sticky_name: "SOZUBALANCEID"@,
            certificate: None,
            certificate_chain: None,
            key: None,
            front_timeout: None,
            back_timeout: None,
            connect_timeout: None,
            request_timeout: None,
        }
    }

    /// The answer for requests that no frontend matches: the file that the listener names, which has
    /// to be readable, or else the one of the machine.
    pub open spec fn answer_for_404(
        self,
        env: EnvironmentModel,
    ) -> Result<Seq<char>, ConfigErrorModel> {
        match self.answer_404 {
            None => Ok(env.answer_404),
            Some(path) => match crate::config::environment::file_at(env.files, path) {
                FileContentModel::Text(text) => Ok(text),
                FileContentModel::CannotOpen(cause) => Err(
                    ConfigErrorModel::bare(
                        ErrorCauseModel::Open404 {
                            path,
                            current_dir: env.current_dir_shown,
                            cause,
                        },
                    ),
                ),
                FileContentModel::CannotRead(cause) => Err(
                    ConfigErrorModel::bare(
                        ErrorCauseModel::Read404 {
                            path,
                            current_dir: env.current_dir_shown,
                            cause,
                        },
                    ),
                ),
            },
        }
    }

    /// The answer for clusters without available backend.
    pub open spec fn answer_for_503(
        self,
        env: EnvironmentModel,
    ) -> Result<Seq<char>, ConfigErrorModel> {
        match self.answer_503 {
            None => Ok(env.answer_503),
            Some(path) => match crate::config::environment::file_at(env.files, path) {
                FileContentModel::Text(text) => Ok(text),
                FileContentModel::CannotOpen(cause) => Err(
                    ConfigErrorModel::bare(
                        ErrorCauseModel::Open503 { path, cause },
                    ),
                ),
                FileContentModel::CannotRead(cause) => Err(
                    ConfigErrorModel::bare(
                        ErrorCauseModel::Read503 { path, cause },
                    ),
                ),
            },
        }
    }

    /// Both answers, or the first of the two failures.
    pub open spec fn answers(self, env: EnvironmentModel) -> Result<
        (Seq<char>, Seq<char>),
        ConfigErrorModel,
    > {
        match (self.answer_for_404(env), self.answer_for_503(env)) {
            (Ok(a), Ok(b)) => Ok((a, b)),
            (Err(e), _) => Err(e),
            (_, Err(e)) => Err(e),
        }
    }

    /// The HTTP listener.
    pub open spec fn as_http(
        self,
        front: Option<u32>,
        back: Option<u32>,
        connect: Option<u32>,
        request: Option<u32>,
        env: EnvironmentModel,
    ) -> Result<HttpListenerConfigModel, ConfigErrorModel> {
        if self.protocol != FileListenerProtocolConfig::Http {
            Err(
                ConfigErrorModel::bare(
                    ErrorCauseModel::NotHttp,
                ),
            )
        } else {
            match self.answers(env) {
                Err(e) => Err(e.within(ErrorContextModel::Answers)),
                Ok((answer_404, answer_503)) => Ok(
                    HttpListenerConfigModel {
                        address: self.address,
                        public_address: self.public_address,
                        answer_404,
                        answer_503,
                        expect_proxy: is_set(self.expect_proxy),
                        sticky_name: self.sticky_name,
                        front_timeout: timeout(self.front_timeout, front, 60),
                        back_timeout: timeout(self.back_timeout, back, 30),
                        connect_timeout: timeout(self.connect_timeout, connect, 3),
                        request_timeout: timeout(self.request_timeout, request, 10),
                    },
                ),
            }
        }
    }

    /// The HTTPS listener. A key, certificate or chain that cannot be read is left out.
    pub open spec fn as_https(
        self,
        front: Option<u32>,
        back: Option<u32>,
        connect: Option<u32>,
        request: Option<u32>,
        env: EnvironmentModel,
    ) -> Result<HttpsListenerConfigModel, ConfigErrorModel> {
        if self.protocol != FileListenerProtocolConfig::Https {
            Err(
                ConfigErrorModel::bare(
                    ErrorCauseModel::NotHttps,
                ),
            )
        } else {
            match self.answers(env) {
                Err(e) => Err(e.within(ErrorContextModel::Answers)),
                Ok((answer_404, answer_503)) => Ok(
                    HttpsListenerConfigModel {
                        address: self.address,
                        public_address: self.public_address,
                        answer_404,
                        answer_503,
                        versions: match self.tls_versions {
                            Some(versions) => versions,
                            None => seq![TlsVersion::TLSv1_2, TlsVersion::TLSv1_3],
                        },
                        cipher_list: match self.cipher_list {
                            Some(ciphers) => ciphers,
                            None => rustls_cipher_list(),
                        },
                        cipher_suites: cipher_suites(),
                        signature_algorithms: signature_algorithms(),
                        groups_list: groups_list(),
                        expect_proxy: is_set(self.expect_proxy),
                        sticky_name: self.sticky_name,
                        certificate: crate::config::environment::text_at(
                            env.files,
                            self.certificate,
                        ),
                        certificate_chain: match crate::config::environment::text_at(
                            env.files,
                            self.certificate_chain,
                        ) {
                            Some(chain) => crate::certificate::certificates_from(chain, 0),
                            None => Seq::empty(),
                        },
                        key: crate::config::environment::text_at(env.files, self.key),
                        front_timeout: timeout(self.front_timeout, front, 60),
                        back_timeout: timeout(self.back_timeout, back, 30),
                        connect_timeout: timeout(self.connect_timeout, connect, 3),
                        request_timeout: timeout(self.request_timeout, request, 10),
                    },
                ),
            }
        }
    }

    /// The TCP listener.
    pub open spec fn as_tcp(
        self,
        front: Option<u32>,
        back: Option<u32>,
        connect: Option<u32>,
    ) -> TcpListenerConfigModel {
        TcpListenerConfigModel {
            address: self.address,
            public_address: self.public_address,
            expect_proxy: is_set(self.expect_proxy),
            front_timeout: timeout(self.front_timeout, front, 60),
            back_timeout: timeout(self.back_timeout, back, 30),
            connect_timeout: timeout(self.connect_timeout, connect, 3),
        }
    }
}

impl Listener {
    /// A listener on `address` with no option set.
    pub fn new(address: SocketAddress, protocol: FileListenerProtocolConfig) -> (r: Listener)
        ensures
            r.deep_view() == ListenerModel::plain(address, protocol),
    {
        Listener {
            address,
            protocol,
            public_address: None,
            answer_404: None,
            answer_503: None,
            tls_versions: None,
            cipher_list: None,
            expect_proxy: None,
            sticky_name: "SOZUBALANCEID".to_owned(),
            certificate: None,
            certificate_chain: None,
            key: None,
            front_timeout: None,
            back_timeout: None,
            connect_timeout: None,
            request_timeout: None,
        }
    }

    /// The HTTP listener that this one describes, with the timeouts for all listeners where it
    /// has none of its own. Only an HTTP listener whose answer files can be read describes one.
    pub fn to_http(
        &self,
        front_timeout: Option<u32>,
        back_timeout: Option<u32>,
        connect_timeout: Option<u32>,
        request_timeout: Option<u32>,
        env: &Environment,
    ) -> (r: Result<HttpListenerConfig, ConfigError>)
        ensures
            outcome(r) == self.deep_view().as_http(
                front_timeout,
                back_timeout,
                connect_timeout,
                request_timeout,
                env.deep_view(),
            ),
    {
        if self.protocol != FileListenerProtocolConfig::Http {
            return Err(ConfigError::new(ErrorCause::NotHttp));
        }
        let (answer_404, answer_503) = match self.get_404_503_answers(env) {
            Err(e) => {
                return Err(e.with_context(ErrorContext::Answers));
            },
            Ok(answers) => answers,
        };
        Ok(
            HttpListenerConfig {
                address: self.address,
                public_address: self.public_address,
                answer_404,
                answer_503,
                expect_proxy: self.expect_proxy.unwrap_or(false),
                sticky_name: self.sticky_name.clone(),
                front_timeout: pick_timeout(self.front_timeout, front_timeout, 60),
                back_timeout: pick_timeout(self.back_timeout, back_timeout, 30),
                connect_timeout: pick_timeout(self.connect_timeout, connect_timeout, 3),
                request_timeout: pick_timeout(self.request_timeout, request_timeout, 10),
            },
        )
    }

    /// The HTTPS listener that this one describes. Only an HTTPS listener whose answer files can be
    /// read describes one.
    pub fn to_tls(
        &self,
        front_timeout: Option<u32>,
        back_timeout: Option<u32>,
        connect_timeout: Option<u32>,
        request_timeout: Option<u32>,
        env: &Environment,
    ) -> (r: Result<HttpsListenerConfig, ConfigError>)
        ensures
            outcome(r) == self.deep_view().as_https(
                front_timeout,
                back_timeout,
                connect_timeout,
                request_timeout,
                env.deep_view(),
            ),
    {
        if self.protocol != FileListenerProtocolConfig::Https {
            return Err(ConfigError::new(ErrorCause::NotHttps));
        }
        let cipher_list = match &self.cipher_list {
            Some(ciphers) => ciphers.clone(),
            None => default_rustls_cipher_list(),
        };
        let versions: Vec<TlsVersion> = match &self.tls_versions {
            Some(versions) => versions.clone(),
            None => vec![TlsVersion::TLSv1_2, TlsVersion::TLSv1_3],
        };
        let key = env.load_if_possible(&self.key);
        let certificate = env.load_if_possible(&self.certificate);
        let certificate_chain: Vec<String> = match env.load_if_possible(&self.certificate_chain) {
            Some(chain) => split_certificate_chain(chain),
            None => Vec::new(),
        };
        let (answer_404, answer_503) = match self.get_404_503_answers(env) {
            Err(e) => {
                return Err(e.with_context(ErrorContext::Answers));
            },
            Ok(answers) => answers,
        };
        let configuration = HttpsListenerConfig {
            address: self.address,
            public_address: self.public_address,
            answer_404,
            answer_503,
            versions,
            cipher_list,
            cipher_suites: default_cipher_suites(),
            signature_algorithms: default_signature_algorithms(),
            groups_list: default_groups_list(),
            expect_proxy: self.expect_proxy.unwrap_or(false),
            sticky_name: self.sticky_name.clone(),
            certificate,
            certificate_chain,
            key,
            front_timeout: pick_timeout(self.front_timeout, front_timeout, 60),
            back_timeout: pick_timeout(self.back_timeout, back_timeout, 30),
            connect_timeout: pick_timeout(self.connect_timeout, connect_timeout, 3),
            request_timeout: pick_timeout(self.request_timeout, request_timeout, 10),
        };
        proof {
            match self.deep_view().as_https(
                front_timeout,
                back_timeout,
                connect_timeout,
                request_timeout,
                env.deep_view(),
            ) {
                Ok(wanted) => {
                    assert(configuration.versions.deep_view() =~= wanted.versions);
                    assert(configuration.cipher_list.deep_view() =~= wanted.cipher_list);
                    assert(configuration.certificate_chain.deep_view()
                        =~= wanted.certificate_chain);
                },
                Err(_) => {},
            }
        }
        Ok(configuration)
    }

    /// The TCP listener that this one describes.
    pub fn to_tcp(
        &self,
        front_timeout: Option<u32>,
        back_timeout: Option<u32>,
        connect_timeout: Option<u32>,
    ) -> (r: TcpListenerConfig)
        ensures
            r.deep_view() == self.deep_view().as_tcp(front_timeout, back_timeout, connect_timeout),
    {
        TcpListenerConfig {
            address: self.address,
            public_address: self.public_address,
            expect_proxy: self.expect_proxy.unwrap_or(false),
            front_timeout: pick_timeout(self.front_timeout, front_timeout, 60),
            back_timeout: pick_timeout(self.back_timeout, back_timeout, 30),
            connect_timeout: pick_timeout(self.connect_timeout, connect_timeout, 3),
        }
    }

    fn get_404_503_answers(&self, env: &Environment) -> (r: Result<(String, String), ConfigError>)
        ensures
            outcome(r) == self.deep_view().answers(env.deep_view()),
    {
        let answer_404 = match &self.answer_404 {
            None => env.answer_404.clone(),
            Some(path) => match env.file(path) {
                FileContent::Text(text) => text,
                FileContent::CannotOpen(cause) => {
                    return Err(
                        ConfigError::new(
                            ErrorCause::Open404 {
                                path: path.clone(),
                                current_dir: env.current_dir_shown.clone(),
                                cause,
                            },
                        ),
                    );
                },
                FileContent::CannotRead(cause) => {
                    return Err(
                        ConfigError::new(
                            ErrorCause::Read404 {
                                path: path.clone(),
                                current_dir: env.current_dir_shown.clone(),
                                cause,
                            },
                        ),
                    );
                },
            },
        };
        let answer_503 = match &self.answer_503 {
            None => env.answer_503.clone(),
            Some(path) => match env.file(path) {
                FileContent::Text(text) => text,
                FileContent::CannotOpen(cause) => {
                    return Err(
                        ConfigError::new(ErrorCause::Open503 { path: path.clone(), cause }),
                    );
                },
                FileContent::CannotRead(cause) => {
                    return Err(
                        ConfigError::new(ErrorCause::Read503 { path: path.clone(), cause }),
                    );
                },
            },
        };
        Ok((answer_404, answer_503))
    }
}

} // verus!
