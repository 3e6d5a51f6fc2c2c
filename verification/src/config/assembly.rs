//! From the configuration file to the configuration that the proxy runs with.
use vstd::prelude::*;
use vstd::string::*;

use crate::address::SocketAddress;
use crate::path::join_path;
use crate::proxy::{
    HttpListenerConfig, HttpListenerConfigModel, HttpsListenerConfig, HttpsListenerConfigModel,
    TcpListenerConfig, TcpListenerConfigModel,
};

use super::environment::{CurrentDir, CurrentDirModel, Environment, EnvironmentModel};
use super::error::{
    ConfigError, ConfigErrorModel, ErrorCause, ErrorCauseModel, ErrorContext, ErrorContextModel,
};
use super::types::{
    ClusterConfig, ClusterConfigModel, Config, ConfigModel, FileClusterConfig,
    FileClusterConfigModel, FileConfig, FileConfigModel, FileListenerProtocolConfig,
    HttpClusterConfig, HttpClusterConfigModel, HttpFrontendConfig, HttpFrontendConfigModel,
    Listener, ListenerModel, TcpFrontendConfig, TcpFrontendConfigModel,
};

verus! {

/// The timeouts for all listeners, each of which a listener may replace by its own.
#[derive(Debug, Clone, Copy, PartialEq, Eq)]
pub struct Timeouts {
    pub front: Option<u32>,
    pub back: Option<u32>,
    pub connect: Option<u32>,
    pub request: Option<u32>,
}

/// The listeners that were found so far.
#[derive(Debug, PartialEq, Eq)]
pub struct ListenerSet {
    pub http: Vec<HttpListenerConfig>,
    pub https: Vec<HttpsListenerConfig>,
    pub tcp: Vec<TcpListenerConfig>,
    /// every address that is listened on, and the protocol that is spoken there
    pub known: Vec<(SocketAddress, FileListenerProtocolConfig)>,
    /// the addresses where the proxy protocol is expected
    pub expect_proxy: Vec<SocketAddress>,
}

/// What a [`ListenerSet`] holds, as mathematical values.
#[verifier::ext_equal]
pub struct ListenerSetModel {
    pub http: Seq<HttpListenerConfigModel>,
    pub https: Seq<HttpsListenerConfigModel>,
    pub tcp: Seq<TcpListenerConfigModel>,
    pub known: Seq<(SocketAddress, FileListenerProtocolConfig)>,
    pub expect_proxy: Seq<SocketAddress>,
}

impl DeepView for ListenerSet {
    type V = ListenerSetModel;

    open spec fn deep_view(&self) -> ListenerSetModel {
        ListenerSetModel {
            http: self.http.deep_view(),
            https: self.https.deep_view(),
            tcp: self.tcp.deep_view(),
            known: self.known.deep_view(),
            expect_proxy: self.expect_proxy.deep_view(),
        }
    }
}

/// The protocol spoken at `address`.
pub open spec fn protocol_at(
    known: Seq<(SocketAddress, FileListenerProtocolConfig)>,
    address: SocketAddress,
) -> Option<FileListenerProtocolConfig>
    decreases known.len(),
{
    if known.len() == 0 {
        None
    } else if known.last().0 == address {
        Some(known.last().1)
    } else {
        protocol_at(known.drop_last(), address)
    }
}

/// The first HTTPS listener at `address` that has a certificate.
pub open spec fn certified(
    https: Seq<HttpsListenerConfigModel>,
    address: SocketAddress,
) -> Option<HttpsListenerConfigModel>
    decreases https.len(),
{
    if https.len() == 0 {
        None
    } else if https[0].address == address && https[0].certificate is Some {
        Some(https[0])
    } else {
        certified(https.drop_first(), address)
    }
}

impl ListenerSetModel {
    /// No listener.
    pub open spec fn empty() -> ListenerSetModel {
        ListenerSetModel {
            http: Seq::empty(),
            https: Seq::empty(),
            tcp: Seq::empty(),
            known: Seq::empty(),
            expect_proxy: Seq::empty(),
        }
    }

    /// The protocol spoken at `address`.
    pub open spec fn protocol_at(self, address: SocketAddress) -> Option<
        FileListenerProtocolConfig,
    > {
        protocol_at(self.known, address)
    }

    /// The set in which `protocol` is spoken at `address` too.
    pub open spec fn with_known(
        self,
        address: SocketAddress,
        protocol: FileListenerProtocolConfig,
    ) -> ListenerSetModel {
        ListenerSetModel { known: self.known.push((address, protocol)), ..self }
    }

    /// The set with the listener of its protocol that `listener` describes; what refuses it is
    /// reported within `context`.
    pub open spec fn with_built(
        self,
        listener: ListenerModel,
        timeouts: Timeouts,
        env: EnvironmentModel,
        context: ErrorContextModel,
    ) -> Result<ListenerSetModel, ConfigErrorModel> {
        let (front, back, connect, request) = (
            timeouts.front,
            timeouts.back,
            timeouts.connect,
            timeouts.request,
        );
        match listener.protocol {
            FileListenerProtocolConfig::Https => match listener.as_https(
                front,
                back,
                connect,
                request,
                env,
            ) {
                Err(e) => Err(e.within(context)),
                Ok(https) => Ok(ListenerSetModel { https: self.https.push(https), ..self }),
            },
            FileListenerProtocolConfig::Http => match listener.as_http(
                front,
                back,
                connect,
                request,
                env,
            ) {
                Err(e) => Err(e.within(context)),
                Ok(http) => Ok(ListenerSetModel { http: self.http.push(http), ..self }),
            },
            FileListenerProtocolConfig::Tcp => Ok(
                ListenerSetModel {
                    tcp: self.tcp.push(listener.as_tcp(front, back, connect)),
                    ..self
                },
            ),
        }
    }

    /// The set with the listener that `listener` describes, at an address that has none yet.
    pub open spec fn with_listener(
        self,
        listener: ListenerModel,
        timeouts: Timeouts,
        env: EnvironmentModel,
    ) -> Result<ListenerSetModel, ConfigErrorModel> {
        let expects = listener.expect_proxy == Some(true);
        if self.protocol_at(listener.address) is Some {
            Err(ConfigErrorModel::bare(ErrorCauseModel::DuplicateListener(listener.address)))
        } else if listener.public_address is Some && expects {
            Err(ConfigErrorModel::bare(ErrorCauseModel::IncompatibleListener(listener.address)))
        } else {
            let known = self.with_known(listener.address, listener.protocol);
            ListenerSetModel {
                expect_proxy: if expects {
                    known.expect_proxy.push(listener.address)
                } else {
                    known.expect_proxy
                },
                ..known
            }.with_built(listener, timeouts, env, ErrorContextModel::InvalidListener)
        }
    }

    /// The set with a listener without options at `address`.
    pub open spec fn with_default(
        self,
        address: SocketAddress,
        protocol: FileListenerProtocolConfig,
        timeouts: Timeouts,
        env: EnvironmentModel,
        context: ErrorContextModel,
    ) -> Result<ListenerSetModel, ConfigErrorModel> {
        match self.with_built(ListenerModel::plain(address, protocol), timeouts, env, context) {
            Err(e) => Err(e),
            Ok(set) => Ok(set.with_known(address, protocol)),
        }
    }

    /// Finds a listener for an HTTP or HTTPS frontend. One with a certificate needs an HTTPS
    /// listener; one without needs an HTTP listener, or an HTTPS listener that lends its
    /// certificate, chain and key. Where no listener is at the address, there is one by default.
    pub open spec fn with_http_frontend(
        self,
        frontend: HttpFrontendConfigModel,
        timeouts: Timeouts,
        env: EnvironmentModel,
    ) -> Result<(ListenerSetModel, HttpFrontendConfigModel), ConfigErrorModel> {
        let address = frontend.address;
        match self.protocol_at(address) {
            Some(FileListenerProtocolConfig::Tcp) => Err(
                ConfigErrorModel::bare(ErrorCauseModel::HttpFrontendOnTcpListener),
            ),
            Some(FileListenerProtocolConfig::Http) => if frontend.certificate is Some {
                Err(ConfigErrorModel::bare(ErrorCauseModel::HttpsFrontendOnHttpListener))
            } else {
                Ok((self, frontend))
            },
            Some(FileListenerProtocolConfig::Https) => if frontend.certificate is Some {
                Ok((self, frontend))
            } else {
                match certified(self.https, address) {
                    None => Err(
                        ConfigErrorModel::bare(ErrorCauseModel::HttpFrontendOnHttpsListener),
                    ),
                    Some(listener) => Ok(
                        (
                            self,
                            HttpFrontendConfigModel {
                                certificate: listener.certificate,
                                certificate_chain: Some(listener.certificate_chain),
                                key: listener.key,
                                ..frontend
                            },
                        ),
                    ),
                }
            },
            None => {
                let set = if frontend.certificate is Some {
                    self.with_default(
                        address,
                        FileListenerProtocolConfig::Https,
                        timeouts,
                        env,
                        ErrorContextModel::ToTls,
                    )
                } else {
                    self.with_default(
                        address,
                        FileListenerProtocolConfig::Http,
                        timeouts,
                        env,
                        ErrorContextModel::ToHttp,
                    )
                };
                match set {
                    Err(e) => Err(e),
                    Ok(set) => Ok((set, frontend)),
                }
            },
        }
    }

    /// Finds a listener for each of the frontends.
    pub open spec fn with_http_frontends(
        self,
        frontends: Seq<HttpFrontendConfigModel>,
        timeouts: Timeouts,
        env: EnvironmentModel,
    ) -> Result<(ListenerSetModel, Seq<HttpFrontendConfigModel>), ConfigErrorModel>
        decreases frontends.len(),
    {
        if frontends.len() == 0 {
            Ok((self, Seq::empty()))
        } else {
            match self.with_http_frontends(frontends.drop_last(), timeouts, env) {
                Err(e) => Err(e),
                Ok((set, placed)) => match set.with_http_frontend(frontends.last(), timeouts, env) {
                    Err(e) => Err(e),
                    Ok((set, frontend)) => Ok((set, placed.push(frontend))),
                },
            }
        }
    }

    /// Finds a listener for a TCP frontend at `address`, by default a TCP listener of its own.
    pub open spec fn with_tcp_frontend(
        self,
        address: SocketAddress,
        timeouts: Timeouts,
        env: EnvironmentModel,
    ) -> Result<ListenerSetModel, ConfigErrorModel> {
        match self.protocol_at(address) {
            Some(FileListenerProtocolConfig::Tcp) => Ok(self),
            Some(_) => Err(ConfigErrorModel::bare(ErrorCauseModel::TcpFrontendOnHttpListener)),
            None => self.with_default(
                address,
                FileListenerProtocolConfig::Tcp,
                timeouts,
                env,
                ErrorContextModel::ToTcp,
            ),
        }
    }

    /// Finds a listener for each of the frontends.
    pub open spec fn with_tcp_frontends(
        self,
        frontends: Seq<TcpFrontendConfigModel>,
        timeouts: Timeouts,
        env: EnvironmentModel,
    ) -> Result<ListenerSetModel, ConfigErrorModel>
        decreases frontends.len(),
    {
        if frontends.len() == 0 {
            Ok(self)
        } else {
            match self.with_tcp_frontends(frontends.drop_last(), timeouts, env) {
                Err(e) => Err(e),
                Ok(set) => set.with_tcp_frontend(frontends.last().address, timeouts, env),
            }
        }
    }

    /// Finds listeners for the frontends of a cluster.
    pub open spec fn with_cluster(
        self,
        cluster: ClusterConfigModel,
        timeouts: Timeouts,
        env: EnvironmentModel,
    ) -> Result<(ListenerSetModel, ClusterConfigModel), ConfigErrorModel> {
        match cluster {
            ClusterConfigModel::Http(http) => match self.with_http_frontends(
                http.frontends,
                timeouts,
                env,
            ) {
                Err(e) => Err(e),
                Ok((set, frontends)) => Ok(
                    (set, ClusterConfigModel::Http(HttpClusterConfigModel { frontends, ..http })),
                ),
            },
            ClusterConfigModel::Tcp(tcp) => match self.with_tcp_frontends(
                tcp.frontends,
                timeouts,
                env,
            ) {
                Err(e) => Err(e),
                Ok(set) => Ok((set, cluster)),
            },
        }
    }

    /// All listeners that the file describes, one after the other.
    pub open spec fn from_listeners(
        listeners: Seq<ListenerModel>,
        timeouts: Timeouts,
        env: EnvironmentModel,
    ) -> Result<ListenerSetModel, ConfigErrorModel>
        decreases listeners.len(),
    {
        if listeners.len() == 0 {
            Ok(ListenerSetModel::empty())
        } else {
            match ListenerSetModel::from_listeners(listeners.drop_last(), timeouts, env) {
                Err(e) => Err(e),
                Ok(set) => set.with_listener(listeners.last(), timeouts, env),
            }
        }
    }

    /// All clusters that the file describes, one after the other, with listeners for all of their
    /// frontends. Only the listeners of the file make frontends expect the proxy protocol.
    pub open spec fn with_clusters(
        self,
        clusters: Seq<(Seq<char>, FileClusterConfigModel)>,
        timeouts: Timeouts,
        env: EnvironmentModel,
    ) -> Result<(ListenerSetModel, Seq<(Seq<char>, ClusterConfigModel)>), ConfigErrorModel>
        decreases clusters.len(),
    {
        if clusters.len() == 0 {
            Ok((self, Seq::empty()))
        } else {
            let (id, described) = clusters.last();
            match self.with_clusters(clusters.drop_last(), timeouts, env) {
                Err(e) => Err(e),
                Ok((set, placed)) => match described.as_cluster(id, set.expect_proxy, env) {
                    Err(e) => Err(e.within(ErrorContextModel::Cluster(id))),
                    Ok(cluster) => match set.with_cluster(cluster, timeouts, env) {
                        Err(e) => Err(e),
                        Ok((set, cluster)) => Ok((set, placed.push((id, cluster)))),
                    },
                },
            }
        }
    }
}

/// The value that is set, or the default.
pub open spec fn or_default<T>(value: Option<T>, default: T) -> T {
    match value {
        Some(value) => value,
        None => default,
    }
}

/// The path of the command socket. The current directory has to be known even where the file sets
/// the path.
pub open spec fn socket_path(command_socket: Option<Seq<char>>, current_dir: CurrentDirModel) -> Result<
    Seq<char>,
    ConfigErrorModel,
> {
    match current_dir {
        CurrentDirModel::Unavailable => Err(ConfigErrorModel::bare(ErrorCauseModel::NoCurrentDir)),
        CurrentDirModel::NotUnicode => Err(
            ConfigErrorModel::bare(ErrorCauseModel::InvalidSocketPath),
        ),
        CurrentDirModel::Known(dir) => Ok(
            or_default(command_socket, crate::path::inside(dir, "sozu.sock"@)),
        ),
    }
}

impl FileConfigModel {
    pub open spec fn timeouts(self) -> Timeouts {
        Timeouts {
            front: self.front_timeout,
            back: self.back_timeout,
            connect: self.connect_timeout,
            request: self.request_timeout,
        }
    }

    /// The configuration of these parts, with the other options of the file or their defaults.
    pub open spec fn with_parts(
        self,
        config_path: Seq<char>,
        command_socket: Seq<char>,
        listeners: ListenerSetModel,
        clusters: Seq<(Seq<char>, ClusterConfigModel)>,
    ) -> ConfigModel {
        let command_buffer_size = or_default(self.command_buffer_size, 1_000_000);
        let max_buffers = or_default(self.max_buffers, 1000);
        let min_buffers = or_default(self.min_buffers, 1);
        ConfigModel {
            config_path,
            command_socket,
            command_buffer_size,
            max_command_buffer_size: or_default(
                self.max_command_buffer_size,
                (command_buffer_size * 2) as usize,
            ),
            max_connections: or_default(self.max_connections, 10000),
            min_buffers: if min_buffers < max_buffers {
                min_buffers
            } else {
                max_buffers
            },
            max_buffers,
            buffer_size: or_default(self.buffer_size, 16393),
            saved_state: self.saved_state,
            automatic_state_save: or_default(self.automatic_state_save, false),
            log_level: or_default(self.log_level, "info"@),
            log_target: or_default(self.log_target, "stdout"@),
            log_access_target: self.log_access_target,
            worker_count: or_default(self.worker_count, 2),
            worker_automatic_restart: or_default(self.worker_automatic_restart, true),
            metrics: self.metrics,
            http_listeners: listeners.http,
            https_listeners: listeners.https,
            tcp_listeners: listeners.tcp,
            clusters,
            handle_process_affinity: or_default(self.handle_process_affinity, false),
            ctl_command_timeout: or_default(self.ctl_command_timeout, 1000),
            pid_file_path: self.pid_file_path,
            activate_listeners: or_default(self.activate_listeners, true),
            front_timeout: or_default(self.front_timeout, 60),
            back_timeout: or_default(self.front_timeout, 30),
            connect_timeout: or_default(self.front_timeout, 3),
            zombie_check_interval: or_default(self.zombie_check_interval, 1800),
            accept_queue_timeout: or_default(self.accept_queue_timeout, 60),
        }
    }

    /// The listeners and clusters that the file describes.
    pub open spec fn placed(self, env: EnvironmentModel) -> Result<
        (ListenerSetModel, Seq<(Seq<char>, ClusterConfigModel)>),
        ConfigErrorModel,
    > {
        match ListenerSetModel::from_listeners(
            or_default(self.listeners, Seq::empty()),
            self.timeouts(),
            env,
        ) {
            Err(e) => Err(e),
            Ok(listeners) => listeners.with_clusters(
                or_default(self.clusters, Seq::empty()),
                self.timeouts(),
                env,
            ),
        }
    }

    /// The configuration that the file describes.
    pub open spec fn as_config(self, config_path: Seq<char>, env: EnvironmentModel) -> Result<
        ConfigModel,
        ConfigErrorModel,
    > {
        match self.placed(env) {
            Err(e) => Err(e),
            Ok((listeners, clusters)) => match socket_path(self.command_socket, env.current_dir) {
                Err(e) => Err(e),
                Ok(socket) => if self.saved_state is None && self.automatic_state_save == Some(
                    true,
                ) {
                    Err(ConfigErrorModel::bare(ErrorCauseModel::AutomaticSaveWithoutPath))
                } else {
                    Ok(self.with_parts(config_path, socket, listeners, clusters))
                },
            },
        }
    }
}

impl ListenerSet {
    fn new() -> (r: Self)
        ensures
            r.deep_view() == ListenerSetModel::empty(),
    {
        let r = ListenerSet {
            http: Vec::new(),
            https: Vec::new(),
            tcp: Vec::new(),
            known: Vec::new(),
            expect_proxy: Vec::new(),
        };
        proof {
            assert(r.deep_view() =~= ListenerSetModel::empty());
        }
        r
    }

    /// The protocol spoken at `address`.
    fn protocol_at(&self, address: SocketAddress) -> (r: Option<FileListenerProtocolConfig>)
        ensures
            r == self.deep_view().protocol_at(address),
    {
        let mut n: usize = self.known.len();
        let ghost known = self.known.deep_view();
        proof {
            assert(known.take(n as int) =~= known);
        }
        while n > 0
            invariant
                n <= self.known.len(),
                known == self.known.deep_view(),
                protocol_at(known, address) == protocol_at(known.take(n as int), address),
            decreases n,
        {
            let (at, protocol) = self.known[n - 1];
            proof {
                assert(known.take(n as int).last() == (at, protocol));
                assert(known.take(n as int).drop_last() =~= known.take(n - 1));
            }
            if at == address {
                return Some(protocol);
            }
            n = n - 1;
        }
        None
    }

    fn add_known(&mut self, address: SocketAddress, protocol: FileListenerProtocolConfig)
        ensures
            final(self).deep_view() == old(self).deep_view().with_known(address, protocol),
    {
        self.known.push((address, protocol));
        proof {
            assert(self.deep_view() =~= old(self).deep_view().with_known(address, protocol));
        }
    }

    /// Adds the listener of its protocol that `listener` describes.
    fn build(
        &mut self,
        listener: &Listener,
        timeouts: Timeouts,
        env: &Environment,
        context: ErrorContext,
    ) -> (r: Result<(), ConfigError>)
        ensures
            match (
                r,
                old(self).deep_view().with_built(
                    listener.deep_view(),
                    timeouts,
                    env.deep_view(),
                    context.deep_view(),
                ),
            ) {
                (Ok(_), Ok(set)) => final(self).deep_view() == set,
                (Err(e), Err(refusal)) => e.deep_view() == refusal,
                _ => false,
            },
    {
        let ghost before = self.deep_view();
        match listener.protocol {
            FileListenerProtocolConfig::Https => {
                match listener.to_tls(
                    timeouts.front,
                    timeouts.back,
                    timeouts.connect,
                    timeouts.request,
                    env,
                ) {
                    Err(e) => {
                        return Err(e.with_context(context));
                    },
                    Ok(https) => {
                        self.https.push(https);
                        proof {
                            assert(self.deep_view() =~= ListenerSetModel {
                                https: before.https.push(https.deep_view()),
                                ..before
                            });
                        }
                    },
                }
            },
            FileListenerProtocolConfig::Http => {
                match listener.to_http(
                    timeouts.front,
                    timeouts.back,
                    timeouts.connect,
                    timeouts.request,
                    env,
                ) {
                    Err(e) => {
                        return Err(e.with_context(context));
                    },
                    Ok(http) => {
                        self.http.push(http);
                        proof {
                            assert(self.deep_view() =~= ListenerSetModel {
                                http: before.http.push(http.deep_view()),
                                ..before
                            });
                        }
                    },
                }
            },
            FileListenerProtocolConfig::Tcp => {
                let tcp = listener.to_tcp(timeouts.front, timeouts.back, timeouts.connect);
                self.tcp.push(tcp);
                proof {
                    assert(self.deep_view() =~= ListenerSetModel {
                        tcp: before.tcp.push(tcp.deep_view()),
                        ..before
                    });
                }
            },
        }
        Ok(())
    }

    /// Adds the listener that `listener` describes.
    fn add_listener(&mut self, listener: &Listener, timeouts: Timeouts, env: &Environment) -> (r:
        Result<(), ConfigError>)
        ensures
            match (
                r,
                old(self).deep_view().with_listener(listener.deep_view(), timeouts, env.deep_view()),
            ) {
                (Ok(_), Ok(set)) => final(self).deep_view() == set,
                (Err(e), Err(refusal)) => e.deep_view() == refusal,
                _ => false,
            },
    {
        if self.protocol_at(listener.address).is_some() {
            return Err(ConfigError::new(ErrorCause::DuplicateListener(listener.address)));
        }
        let expects = match listener.expect_proxy {
            Some(expects) => expects,
            None => false,
        };
        self.add_known(listener.address, listener.protocol);
        let ghost known = self.deep_view();
        if expects {
            self.expect_proxy.push(listener.address);
            proof {
                assert(self.deep_view() =~= ListenerSetModel {
                    expect_proxy: known.expect_proxy.push(listener.address),
                    ..known
                });
            }
        }
        if listener.public_address.is_some() && expects {
            return Err(ConfigError::new(ErrorCause::IncompatibleListener(listener.address)));
        }
        proof {
            assert(self.deep_view() =~= ListenerSetModel {
                expect_proxy: self.deep_view().expect_proxy,
                ..known
            });
        }
        self.build(listener, timeouts, env, ErrorContext::InvalidListener)
    }

    /// Adds a listener without options.
    fn add_default(
        &mut self,
        address: SocketAddress,
        protocol: FileListenerProtocolConfig,
        timeouts: Timeouts,
        env: &Environment,
        context: ErrorContext,
    ) -> (r: Result<(), ConfigError>)
        ensures
            match (
                r,
                old(self).deep_view().with_default(
                    address,
                    protocol,
                    timeouts,
                    env.deep_view(),
                    context.deep_view(),
                ),
            ) {
                (Ok(_), Ok(set)) => final(self).deep_view() == set,
                (Err(e), Err(refusal)) => e.deep_view() == refusal,
                _ => false,
            },
    {
        let listener = Listener::new(address, protocol);
        match self.build(&listener, timeouts, env, context) {
            Err(e) => Err(e),
            Ok(_) => {
                self.add_known(address, protocol);
                Ok(())
            },
        }
    }

    /// The place of the first HTTPS listener at `address` that has a certificate.
    fn certified(&self, address: SocketAddress) -> (r: Option<usize>)
        ensures
            match r {
                None => certified(self.deep_view().https, address) is None,
                Some(i) => i < self.https.len() && certified(self.deep_view().https, address)
                    == Some(self.https@[i as int].deep_view()),
            },
    {
        let mut i: usize = 0;
        let ghost https = self.https.deep_view();
        proof {
            assert(https.skip(0) =~= https);
        }
        while i < self.https.len()
            invariant
                i <= self.https.len(),
                https == self.https.deep_view(),
                certified(https, address) == certified(https.skip(i as int), address),
            decreases self.https.len() - i,
        {
            proof {
                assert(https.skip(i as int)[0] == self.https@[i as int].deep_view());
                assert(https.skip(i as int).drop_first() =~= https.skip(i + 1));
            }
            if self.https[i].address == address && self.https[i].certificate.is_some() {
                return Some(i);
            }
            i = i + 1;
        }
        None
    }

    /// Finds a listener for an HTTP or HTTPS frontend.
    fn place_http(&mut self, frontend: HttpFrontendConfig, timeouts: Timeouts, env: &Environment)
        -> (r: Result<HttpFrontendConfig, ConfigError>)
        ensures
            match (
                r,
                old(self).deep_view().with_http_frontend(
                    frontend.deep_view(),
                    timeouts,
                    env.deep_view(),
                ),
            ) {
                (Ok(placed), Ok((set, model))) => final(self).deep_view() == set
                    && placed.deep_view() == model,
                (Err(e), Err(refusal)) => e.deep_view() == refusal,
                _ => false,
            },
    {
        let mut frontend = frontend;
        let ghost before = frontend.deep_view();
        let address = frontend.address;
        match self.protocol_at(address) {
            Some(FileListenerProtocolConfig::Tcp) => Err(
                ConfigError::new(ErrorCause::HttpFrontendOnTcpListener),
            ),
            Some(FileListenerProtocolConfig::Http) => {
                if frontend.certificate.is_some() {
                    return Err(ConfigError::new(ErrorCause::HttpsFrontendOnHttpListener));
                }
                Ok(frontend)
            },
            Some(FileListenerProtocolConfig::Https) => {
                if frontend.certificate.is_none() {
                    match self.certified(address) {
                        None => {
                            return Err(ConfigError::new(ErrorCause::HttpFrontendOnHttpsListener));
                        },
                        Some(i) => {
                            let listener = &self.https[i];
                            let chain = listener.certificate_chain.clone();
                            proof {
                                assert(chain.deep_view() =~= listener.certificate_chain.deep_view());
                            }
                            frontend.certificate = listener.certificate.clone();
                            frontend.certificate_chain = Some(chain);
                            frontend.key = listener.key.clone();
                        },
                    }
                }
                Ok(frontend)
            },
            None => {
                let added = if frontend.certificate.is_some() {
                    self.add_default(
                        address,
                        FileListenerProtocolConfig::Https,
                        timeouts,
                        env,
                        ErrorContext::ToTls,
                    )
                } else {
                    self.add_default(
                        address,
                        FileListenerProtocolConfig::Http,
                        timeouts,
                        env,
                        ErrorContext::ToHttp,
                    )
                };
                match added {
                    Err(e) => Err(e),
                    Ok(_) => Ok(frontend),
                }
            },
        }
    }

    /// Finds a listener for a TCP frontend.
    fn place_tcp(&mut self, address: SocketAddress, timeouts: Timeouts, env: &Environment) -> (r:
        Result<(), ConfigError>)
        ensures
            match (
                r,
                old(self).deep_view().with_tcp_frontend(address, timeouts, env.deep_view()),
            ) {
                (Ok(_), Ok(set)) => final(self).deep_view() == set,
                (Err(e), Err(refusal)) => e.deep_view() == refusal,
                _ => false,
            },
    {
        match self.protocol_at(address) {
            Some(FileListenerProtocolConfig::Tcp) => Ok(()),
            Some(_) => Err(ConfigError::new(ErrorCause::TcpFrontendOnHttpListener)),
            None => self.add_default(
                address,
                FileListenerProtocolConfig::Tcp,
                timeouts,
                env,
                ErrorContext::ToTcp,
            ),
        }
    }

    /// Finds a listener for each of the frontends.
    fn place_all_http(
        &mut self,
        frontends: &Vec<HttpFrontendConfig>,
        timeouts: Timeouts,
        env: &Environment,
    ) -> (r: Result<Vec<HttpFrontendConfig>, ConfigError>)
        ensures
            match (
                r,
                old(self).deep_view().with_http_frontends(
                    frontends.deep_view(),
                    timeouts,
                    env.deep_view(),
                ),
            ) {
                (Ok(placed), Ok((set, model))) => final(self).deep_view() == set
                    && placed.deep_view() == model,
                (Err(e), Err(refusal)) => e.deep_view() == refusal,
                _ => false,
            },
    {
        let ghost start = self.deep_view();
        let ghost all = frontends.deep_view();
        let mut placed: Vec<HttpFrontendConfig> = Vec::new();
        let mut i: usize = 0;
        proof {
            assert(all.take(0) =~= Seq::empty());
            assert(placed.deep_view() =~= Seq::empty());
        }
        while i < frontends.len()
            invariant
                i <= frontends.len(),
                all == frontends.deep_view(),
                start == old(self).deep_view(),
                start.with_http_frontends(all.take(i as int), timeouts, env.deep_view()) == Ok::<
                    (ListenerSetModel, Seq<HttpFrontendConfigModel>),
                    ConfigErrorModel,
                >((self.deep_view(), placed.deep_view())),
            decreases frontends.len() - i,
        {
            let ghost before = placed.deep_view();
            proof {
                assert(all.take(i + 1).drop_last() =~= all.take(i as int));
                assert(all.take(i + 1).last() == frontends@[i as int].deep_view());
            }
            match self.place_http(frontends[i].clone(), timeouts, env) {
                Err(e) => {
                    proof {
                        lemma_http_refusal_stays(start, all, i + 1, timeouts, env.deep_view());
                    }
                    return Err(e);
                },
                Ok(frontend) => {
                    placed.push(frontend);
                    proof {
                        assert(placed.deep_view() =~= before.push(frontend.deep_view()));
                    }
                },
            }
            i = i + 1;
        }
        proof {
            assert(all.take(all.len() as int) =~= all);
        }
        Ok(placed)
    }

    /// Finds a listener for each of the frontends.
    fn place_all_tcp(
        &mut self,
        frontends: &Vec<TcpFrontendConfig>,
        timeouts: Timeouts,
        env: &Environment,
    ) -> (r: Result<(), ConfigError>)
        ensures
            match (
                r,
                old(self).deep_view().with_tcp_frontends(
                    frontends.deep_view(),
                    timeouts,
                    env.deep_view(),
                ),
            ) {
                (Ok(_), Ok(set)) => final(self).deep_view() == set,
                (Err(e), Err(refusal)) => e.deep_view() == refusal,
                _ => false,
            },
    {
        let ghost start = self.deep_view();
        let ghost all = frontends.deep_view();
        let mut i: usize = 0;
        proof {
            assert(all.take(0) =~= Seq::empty());
        }
        while i < frontends.len()
            invariant
                i <= frontends.len(),
                all == frontends.deep_view(),
                start == old(self).deep_view(),
                start.with_tcp_frontends(all.take(i as int), timeouts, env.deep_view()) == Ok::<
                    ListenerSetModel,
                    ConfigErrorModel,
                >(self.deep_view()),
            decreases frontends.len() - i,
        {
            proof {
                assert(all.take(i + 1).drop_last() =~= all.take(i as int));
                assert(all.take(i + 1).last() == frontends@[i as int].deep_view());
            }
            match self.place_tcp(frontends[i].address, timeouts, env) {
                Err(e) => {
                    proof {
                        lemma_tcp_refusal_stays(start, all, i + 1, timeouts, env.deep_view());
                    }
                    return Err(e);
                },
                Ok(_) => {},
            }
            i = i + 1;
        }
        proof {
            assert(all.take(all.len() as int) =~= all);
        }
        Ok(())
    }

    /// Finds listeners for the frontends of a cluster.
    fn place_cluster(&mut self, cluster: ClusterConfig, timeouts: Timeouts, env: &Environment) -> (r:
        Result<ClusterConfig, ConfigError>)
        ensures
            match (
                r,
                old(self).deep_view().with_cluster(cluster.deep_view(), timeouts, env.deep_view()),
            ) {
                (Ok(placed), Ok((set, model))) => final(self).deep_view() == set
                    && placed.deep_view() == model,
                (Err(e), Err(refusal)) => e.deep_view() == refusal,
                _ => false,
            },
    {
        match cluster {
            ClusterConfig::Http(http) => match self.place_all_http(&http.frontends, timeouts, env) {
                Err(e) => Err(e),
                Ok(frontends) => Ok(ClusterConfig::Http(HttpClusterConfig { frontends, ..http })),
            },
            ClusterConfig::Tcp(tcp) => match self.place_all_tcp(&tcp.frontends, timeouts, env) {
                Err(e) => Err(e),
                Ok(_) => Ok(ClusterConfig::Tcp(tcp)),
            },
        }
    }

    /// All listeners that the file describes.
    fn from_listeners(listeners: &Vec<Listener>, timeouts: Timeouts, env: &Environment) -> (r:
        Result<ListenerSet, ConfigError>)
        ensures
            crate::config::listener::outcome(r) == ListenerSetModel::from_listeners(
                listeners.deep_view(),
                timeouts,
                env.deep_view(),
            ),
    {
        let ghost all = listeners.deep_view();
        let mut set = ListenerSet::new();
        let mut i: usize = 0;
        proof {
            assert(all.take(0) =~= Seq::empty());
        }
        while i < listeners.len()
            invariant
                i <= listeners.len(),
                all == listeners.deep_view(),
                ListenerSetModel::from_listeners(all.take(i as int), timeouts, env.deep_view())
                    == Ok::<ListenerSetModel, ConfigErrorModel>(set.deep_view()),
            decreases listeners.len() - i,
        {
            proof {
                assert(all.take(i + 1).drop_last() =~= all.take(i as int));
                assert(all.take(i + 1).last() == listeners@[i as int].deep_view());
            }
            match set.add_listener(&listeners[i], timeouts, env) {
                Err(e) => {
                    proof {
                        lemma_listener_refusal_stays(all, i + 1, timeouts, env.deep_view());
                    }
                    return Err(e);
                },
                Ok(_) => {},
            }
            i = i + 1;
        }
        proof {
            assert(all.take(all.len() as int) =~= all);
        }
        Ok(set)
    }

    /// All clusters that the file describes, with listeners for all of their frontends.
    fn add_clusters(
        &mut self,
        clusters: &Vec<(String, FileClusterConfig)>,
        timeouts: Timeouts,
        env: &Environment,
    ) -> (r: Result<Vec<(String, ClusterConfig)>, ConfigError>)
        ensures
            match (
                r,
                old(self).deep_view().with_clusters(clusters.deep_view(), timeouts, env.deep_view()),
            ) {
                (Ok(placed), Ok((set, model))) => final(self).deep_view() == set
                    && placed.deep_view() == model,
                (Err(e), Err(refusal)) => e.deep_view() == refusal,
                _ => false,
            },
    {
        let ghost start = self.deep_view();
        let ghost all = clusters.deep_view();
        let mut placed: Vec<(String, ClusterConfig)> = Vec::new();
        let mut i: usize = 0;
        proof {
            assert(all.take(0) =~= Seq::empty());
            assert(placed.deep_view() =~= Seq::empty());
        }
        while i < clusters.len()
            invariant
                i <= clusters.len(),
                all == clusters.deep_view(),
                start == old(self).deep_view(),
                start.with_clusters(all.take(i as int), timeouts, env.deep_view()) == Ok::<
                    (ListenerSetModel, Seq<(Seq<char>, ClusterConfigModel)>),
                    ConfigErrorModel,
                >((self.deep_view(), placed.deep_view())),
            decreases clusters.len() - i,
        {
            let ghost before = placed.deep_view();
            let id = clusters[i].0.clone();
            let described = clusters[i].1.clone();
            proof {
                assert(all.take(i + 1).drop_last() =~= all.take(i as int));
                assert(all.take(i + 1).last() == (id@, described.deep_view()));
                assert(self.expect_proxy.deep_view() =~= self.expect_proxy@);
            }
            match described.to_cluster_config(id.as_str(), &self.expect_proxy, env) {
                Err(e) => {
                    proof {
                        lemma_cluster_refusal_stays(start, all, i + 1, timeouts, env.deep_view());
                    }
                    return Err(e.with_context(ErrorContext::Cluster(id)));
                },
                Ok(cluster) => match self.place_cluster(cluster, timeouts, env) {
                    Err(e) => {
                        proof {
                            lemma_cluster_refusal_stays(
                                start,
                                all,
                                i + 1,
                                timeouts,
                                env.deep_view(),
                            );
                        }
                        return Err(e);
                    },
                    Ok(cluster) => {
                        placed.push((id, cluster));
                        proof {
                            assert(placed.deep_view() =~= before.push((id@, cluster.deep_view())));
                        }
                    },
                },
            }
            i = i + 1;
        }
        proof {
            assert(all.take(all.len() as int) =~= all);
        }
        Ok(placed)
    }
}

/// What refuses the first `n` frontends refuses them all.
proof fn lemma_http_refusal_stays(
    set: ListenerSetModel,
    frontends: Seq<HttpFrontendConfigModel>,
    n: int,
    timeouts: Timeouts,
    env: EnvironmentModel,
)
    requires
        0 <= n <= frontends.len(),
        set.with_http_frontends(frontends.take(n), timeouts, env) is Err,
    ensures
        set.with_http_frontends(frontends, timeouts, env) == set.with_http_frontends(
            frontends.take(n),
            timeouts,
            env,
        ),
    decreases frontends.len(),
{
    if n == frontends.len() {
        assert(frontends.take(n) =~= frontends);
    } else {
        assert(frontends.drop_last().take(n) =~= frontends.take(n));
        lemma_http_refusal_stays(set, frontends.drop_last(), n, timeouts, env);
    }
}

/// What refuses the first `n` frontends refuses them all.
proof fn lemma_tcp_refusal_stays(
    set: ListenerSetModel,
    frontends: Seq<TcpFrontendConfigModel>,
    n: int,
    timeouts: Timeouts,
    env: EnvironmentModel,
)
    requires
        0 <= n <= frontends.len(),
        set.with_tcp_frontends(frontends.take(n), timeouts, env) is Err,
    ensures
        set.with_tcp_frontends(frontends, timeouts, env) == set.with_tcp_frontends(
            frontends.take(n),
            timeouts,
            env,
        ),
    decreases frontends.len(),
{
    if n == frontends.len() {
        assert(frontends.take(n) =~= frontends);
    } else {
        assert(frontends.drop_last().take(n) =~= frontends.take(n));
        lemma_tcp_refusal_stays(set, frontends.drop_last(), n, timeouts, env);
    }
}

/// What refuses the first `n` listeners refuses them all.
proof fn lemma_listener_refusal_stays(
    listeners: Seq<ListenerModel>,
    n: int,
    timeouts: Timeouts,
    env: EnvironmentModel,
)
    requires
        0 <= n <= listeners.len(),
        ListenerSetModel::from_listeners(listeners.take(n), timeouts, env) is Err,
    ensures
        ListenerSetModel::from_listeners(listeners, timeouts, env)
            == ListenerSetModel::from_listeners(listeners.take(n), timeouts, env),
    decreases listeners.len(),
{
    if n == listeners.len() {
        assert(listeners.take(n) =~= listeners);
    } else {
        assert(listeners.drop_last().take(n) =~= listeners.take(n));
        lemma_listener_refusal_stays(listeners.drop_last(), n, timeouts, env);
    }
}

/// What refuses the first `n` clusters refuses them all.
proof fn lemma_cluster_refusal_stays(
    set: ListenerSetModel,
    clusters: Seq<(Seq<char>, FileClusterConfigModel)>,
    n: int,
    timeouts: Timeouts,
    env: EnvironmentModel,
)
    requires
        0 <= n <= clusters.len(),
        set.with_clusters(clusters.take(n), timeouts, env) is Err,
    ensures
        set.with_clusters(clusters, timeouts, env) == set.with_clusters(
            clusters.take(n),
            timeouts,
            env,
        ),
    decreases clusters.len(),
{
    if n == clusters.len() {
        assert(clusters.take(n) =~= clusters);
    } else {
        assert(clusters.drop_last().take(n) =~= clusters.take(n));
        lemma_cluster_refusal_stays(set, clusters.drop_last(), n, timeouts, env);
    }
}

impl FileConfig {
    /// The listeners and clusters that the file describes.
    fn place(&self, env: &Environment) -> (r: Result<
        (ListenerSet, Vec<(String, ClusterConfig)>),
        ConfigError,
    >)
        ensures
            crate::config::listener::outcome(r) == self.deep_view().placed(env.deep_view()),
    {
        let timeouts = Timeouts {
            front: self.front_timeout,
            back: self.back_timeout,
            connect: self.connect_timeout,
            request: self.request_timeout,
        };
        let listeners = match &self.listeners {
            Some(listeners) => ListenerSet::from_listeners(listeners, timeouts, env),
            None => Ok(ListenerSet::new()),
        };
        let mut set = match listeners {
            Err(e) => {
                return Err(e);
            },
            Ok(set) => set,
        };
        let clusters = match &self.clusters {
            Some(clusters) => set.add_clusters(clusters, timeouts, env),
            None => Ok(Vec::new()),
        };
        match clusters {
            Err(e) => Err(e),
            Ok(clusters) => {
                proof {
                    if self.clusters is None {
                        assert(clusters.deep_view() =~= Seq::empty());
                    }
                }
                Ok((set, clusters))
            },
        }
    }

    /// The path of the command socket.
    fn socket_path(&self, env: &Environment) -> (r: Result<String, ConfigError>)
        ensures
            crate::config::listener::outcome(r) == socket_path(
                self.deep_view().command_socket,
                env.deep_view().current_dir,
            ),
    {
        let in_current_dir = match &env.current_dir {
            CurrentDir::Unavailable => {
                return Err(ConfigError::new(ErrorCause::NoCurrentDir));
            },
            CurrentDir::NotUnicode => {
                return Err(ConfigError::new(ErrorCause::InvalidSocketPath));
            },
            CurrentDir::Known(dir) => join_path(dir.as_str(), "sozu.sock"),
        };
        match &self.command_socket {
            Some(path) => Ok(path.clone()),
            None => Ok(in_current_dir),
        }
    }

    /// The configuration of these parts, with the other options of the file or their defaults.
    fn with_parts(
        self,
        config_path: &str,
        command_socket: String,
        listeners: ListenerSet,
        clusters: Vec<(String, ClusterConfig)>,
    ) -> (r: Config)
        requires
            or_default(self.command_buffer_size, 1_000_000) * 2 <= usize::MAX,
        ensures
            r.deep_view() == self.deep_view().with_parts(
                config_path@,
                command_socket@,
                listeners.deep_view(),
                clusters.deep_view(),
            ),
    {
        let command_buffer_size = self.command_buffer_size.unwrap_or(1_000_000);
        let max_buffers = self.max_buffers.unwrap_or(1000);
        let min_buffers = self.min_buffers.unwrap_or(1);
        Config {
            config_path: config_path.to_owned(),
            command_socket,
            command_buffer_size,
            max_command_buffer_size: self.max_command_buffer_size.unwrap_or(
                command_buffer_size * 2,
            ),
            max_connections: self.max_connections.unwrap_or(10000),
            min_buffers: if min_buffers < max_buffers {
                min_buffers
            } else {
                max_buffers
            },
            max_buffers,
            buffer_size: self.buffer_size.unwrap_or(16393),
            saved_state: self.saved_state,
            automatic_state_save: self.automatic_state_save.unwrap_or(false),
            log_level: self.log_level.unwrap_or("info".to_owned()),
            log_target: self.log_target.unwrap_or("stdout".to_owned()),
            log_access_target: self.log_access_target,
            worker_count: self.worker_count.unwrap_or(2),
            worker_automatic_restart: self.worker_automatic_restart.unwrap_or(true),
            metrics: self.metrics,
            http_listeners: listeners.http,
            https_listeners: listeners.https,
            tcp_listeners: listeners.tcp,
            clusters,
            handle_process_affinity: self.handle_process_affinity.unwrap_or(false),
            ctl_command_timeout: self.ctl_command_timeout.unwrap_or(1_000),
            pid_file_path: self.pid_file_path,
            activate_listeners: self.activate_listeners.unwrap_or(true),
            front_timeout: self.front_timeout.unwrap_or(default_front_timeout()),
            back_timeout: self.front_timeout.unwrap_or(default_back_timeout()),
            connect_timeout: self.front_timeout.unwrap_or(default_connect_timeout()),
            zombie_check_interval: self.zombie_check_interval.unwrap_or(
                default_zombie_check_interval(),
            ),
            accept_queue_timeout: self.accept_queue_timeout.unwrap_or(
                default_accept_queue_timeout(),
            ),
        }
    }

    /// The configuration that the file describes, with `config_path` as its own path. Every frontend
    /// gets a listener that speaks its protocol.
    pub fn into(self, config_path: &str, env: &Environment) -> (r: Result<Config, ConfigError>)
        requires
            self.deep_view().as_config(config_path@, env.deep_view()) is Ok ==> or_default(
                self.command_buffer_size,
                1_000_000,
            ) * 2 <= usize::MAX,
        ensures
            crate::config::listener::outcome(r) == self.deep_view().as_config(
                config_path@,
                env.deep_view(),
            ),
    {
        match self.place(env) {
            Err(e) => Err(e),
            Ok((listeners, clusters)) => match self.socket_path(env) {
                Err(e) => Err(e),
                Ok(socket) => {
                    if self.saved_state.is_none() && self.automatic_state_save.unwrap_or(false) {
                        return Err(ConfigError::new(ErrorCause::AutomaticSaveWithoutPath));
                    }
                    Ok(self.with_parts(config_path, socket, listeners, clusters))
                },
            },
        }
    }
}

/// The front timeout, in seconds, where none is set.
pub fn default_front_timeout() -> (r: u32)
    ensures
        r == 60,
{
    60
}

/// The back timeout, in seconds, where none is set.
pub fn default_back_timeout() -> (r: u32)
    ensures
        r == 30,
{
    30
}

/// The timeout of connections to backends, in seconds, where none is set.
pub fn default_connect_timeout() -> (r: u32)
    ensures
        r == 3,
{
    3
}

/// How often dead sessions are looked for, in seconds, where nothing is set: half an hour.
pub fn default_zombie_check_interval() -> (r: u32)
    ensures
        r == 30 * 60,
{
    30 * 60
}

/// How long a connection waits to be accepted, in seconds, where nothing is set.
pub fn default_accept_queue_timeout() -> (r: u32)
    ensures
        r == 60,
{
    60
}

} // verus!
