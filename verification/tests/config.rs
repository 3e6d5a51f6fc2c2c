use sozu_core::address::SocketAddress;
use sozu_core::collections::TextMap;
use sozu_core::command::types::{CommandRequest, CommandRequestOrder};
use sozu_core::config::assembly::{
    default_accept_queue_timeout, default_back_timeout, default_connect_timeout,
    default_front_timeout, default_zombie_check_interval,
};
use sozu_core::config::environment::{CurrentDir, Environment, FileContent, LoadedFile};
use sozu_core::config::listener::default_sticky_name;
use sozu_core::config::load::ParsedFile;
use sozu_core::config::paths::ResolvedFolder;
use sozu_core::config::report::{display_toml_error, line_of};
use sozu_core::config::types::{
    BackendConfig, ClusterConfig, Config, FileClusterConfig, FileClusterFrontendConfig,
    FileClusterProtocolConfig, FileConfig, FileListenerProtocolConfig, Listener, PathRuleType,
};
use sozu_core::proxy::{
    LoadBalancingAlgorithms, PathRule, ProxyProtocolConfig, ProxyRequestOrder, Route, RulePosition,
    TlsVersion,
};
use sozu_core::worker::Worker;

fn v4(a: u8, b: u8, c: u8, d: u8, port: u16) -> SocketAddress {
    SocketAddress::V4 {
        ip: u32::from_be_bytes([a, b, c, d]),
        port,
    }
}

fn file(path: &str, text: &str) -> LoadedFile {
    LoadedFile {
        path: path.to_string(),
        content: FileContent::Text(text.to_string()),
    }
}

fn environment(files: Vec<LoadedFile>) -> Environment {
    Environment {
        files,
        answer_404: "not found".to_string(),
        answer_503: "unavailable".to_string(),
        current_dir: CurrentDir::Known("/var/lib/sozu".to_string()),
        current_dir_shown: "Some(\"/var/lib/sozu\")".to_string(),
    }
}

fn frontend(address: SocketAddress) -> FileClusterFrontendConfig {
    FileClusterFrontendConfig {
        address,
        hostname: Some("lolcatho.st".to_string()),
        path: None,
        path_type: None,
        method: None,
        certificate: None,
        key: None,
        certificate_chain: None,
        tls_versions: Vec::new(),
        position: RulePosition::Tree,
        tags: None,
    }
}

fn tcp_frontend(address: SocketAddress) -> FileClusterFrontendConfig {
    FileClusterFrontendConfig {
        hostname: None,
        ..frontend(address)
    }
}

fn cluster(
    protocol: FileClusterProtocolConfig,
    frontends: Vec<FileClusterFrontendConfig>,
) -> FileClusterConfig {
    FileClusterConfig {
        frontends,
        backends: vec![BackendConfig {
            address: v4(127, 0, 0, 1, 1026),
            weight: None,
            sticky_id: None,
            backup: None,
            backend_id: None,
        }],
        protocol,
        sticky_session: None,
        https_redirect: None,
        send_proxy: None,
        load_balancing: LoadBalancingAlgorithms::RoundRobin,
        answer_503: None,
        load_metric: None,
    }
}

fn http_cluster(frontends: Vec<FileClusterFrontendConfig>) -> FileClusterConfig {
    cluster(FileClusterProtocolConfig::Http, frontends)
}

fn file_config(
    listeners: Vec<Listener>,
    clusters: Vec<(String, FileClusterConfig)>,
) -> FileConfig {
    FileConfig {
        listeners: Some(listeners),
        clusters: Some(clusters),
        ..Worker::empty_file_config()
    }
}

fn refusal(config: FileConfig, env: &Environment) -> String {
    match config.into("/etc/sozu/config.toml", env) {
        Ok(_) => panic!("the configuration should be refused"),
        Err(e) => e.to_text(),
    }
}

#[test]
fn the_empty_file_gives_the_defaults() {
    let env = environment(Vec::new());
    let config = Worker::empty_file_config()
        .into("/etc/sozu/config.toml", &env)
        .expect("the empty file is accepted");
    assert_eq!(config.config_path, "/etc/sozu/config.toml");
    assert_eq!(config.command_socket, "/var/lib/sozu/sozu.sock");
    assert_eq!(config.command_buffer_size, 1_000_000);
    assert_eq!(config.max_command_buffer_size, 2_000_000);
    assert_eq!(config.max_connections, 10000);
    assert_eq!(config.min_buffers, 1);
    assert_eq!(config.max_buffers, 1000);
    assert_eq!(config.buffer_size, 16393);
    assert_eq!(config.saved_state, None);
    assert!(!config.automatic_state_save);
    assert_eq!(config.log_level, "info");
    assert_eq!(config.log_target, "stdout");
    assert_eq!(config.worker_count, 2);
    assert!(!config.worker_automatic_restart);
    assert_eq!(config.ctl_command_timeout, 1000);
    assert!(config.activate_listeners);
    assert_eq!(config.front_timeout, 60);
    assert_eq!(config.back_timeout, 30);
    assert_eq!(config.connect_timeout, 3);
    assert_eq!(config.zombie_check_interval, 1800);
    assert_eq!(config.accept_queue_timeout, 60);
    assert!(config.generate_config_messages().is_empty());
}

#[test]
fn defaults_are_the_documented_ones() {
    assert_eq!(default_sticky_name(), "SOZUBALANCEID");
    assert_eq!(default_front_timeout(), 60);
    assert_eq!(default_back_timeout(), 30);
    assert_eq!(default_connect_timeout(), 3);
    assert_eq!(default_zombie_check_interval(), 1800);
    assert_eq!(default_accept_queue_timeout(), 60);
}

#[test]
fn the_number_of_buffers_is_bounded() {
    let env = environment(Vec::new());
    let config = FileConfig {
        min_buffers: Some(50),
        max_buffers: Some(20),
        command_buffer_size: Some(300),
        front_timeout: Some(7),
        ..Worker::empty_file_config()
    }
    .into("", &env)
    .expect("accepted");
    assert_eq!(config.min_buffers, 20);
    assert_eq!(config.max_buffers, 20);
    assert_eq!(config.max_command_buffer_size, 600);
    assert_eq!(config.front_timeout, 7);
    assert_eq!(config.back_timeout, 7);
    assert_eq!(config.connect_timeout, 7);
}

#[test]
fn listeners_take_the_general_timeouts() {
    let mut listener = Listener::new(v4(0, 0, 0, 0, 80), FileListenerProtocolConfig::Http);
    listener.back_timeout = Some(11);
    let env = environment(Vec::new());
    let http = listener
        .to_http(Some(5), Some(6), None, None, &env)
        .expect("an HTTP listener");
    assert_eq!(http.front_timeout, 5);
    assert_eq!(http.back_timeout, 11);
    assert_eq!(http.connect_timeout, 3);
    assert_eq!(http.request_timeout, 10);
    assert_eq!(http.answer_404, "not found");
    assert_eq!(http.answer_503, "unavailable");
    assert_eq!(http.sticky_name, "SOZUBALANCEID");
    let refused = listener.to_tls(None, None, None, None, &env).unwrap_err();
    assert_eq!(refused.to_text(), "cannot convert listener to HTTPS");
}

#[test]
fn an_https_listener_reads_its_files() {
    let mut listener = Listener::new(v4(0, 0, 0, 0, 443), FileListenerProtocolConfig::Https);
    listener.certificate = Some("cert.pem".to_string());
    listener.certificate_chain = Some("chain.pem".to_string());
    listener.key = Some("missing.pem".to_string());
    let chain = "-----BEGIN CERTIFICATE-----\na\n-----END CERTIFICATE-----\n\
                 -----BEGIN CERTIFICATE-----\nb\n-----END CERTIFICATE-----\n";
    let env = environment(vec![file("cert.pem", "certificate"), file("chain.pem", chain)]);
    let https = listener
        .to_tls(None, None, None, None, &env)
        .expect("an HTTPS listener");
    assert_eq!(https.certificate, Some("certificate".to_string()));
    assert_eq!(https.certificate_chain.len(), 2);
    assert_eq!(https.key, None);
    assert_eq!(https.versions, vec![TlsVersion::TLSv1_2, TlsVersion::TLSv1_3]);
    assert_eq!(https.cipher_list.len(), 9);
    let refused = listener.to_http(None, None, None, None, &env).unwrap_err();
    assert_eq!(refused.to_text(), "cannot convert listener to HTTP");
}

#[test]
fn answers_that_cannot_be_read_refuse_the_listener() {
    let mut listener = Listener::new(v4(0, 0, 0, 0, 80), FileListenerProtocolConfig::Http);
    listener.answer_404 = Some("404.html".to_string());
    let env = environment(vec![LoadedFile {
        path: "404.html".to_string(),
        content: FileContent::CannotOpen("no such file".to_string()),
    }]);
    let refused = listener.to_http(None, None, None, None, &env).unwrap_err();
    assert_eq!(
        refused.to_text(),
        "Could not get 404 and 503 answers from file system: \
         Could not open 404 answer file on path 404.html, current dir Some(\"/var/lib/sozu\"): no such file"
    );
    listener.answer_404 = None;
    listener.answer_503 = Some("503.html".to_string());
    let env = environment(vec![LoadedFile {
        path: "503.html".to_string(),
        content: FileContent::CannotRead("not text".to_string()),
    }]);
    assert_eq!(
        refusal(file_config(vec![listener], Vec::new()), &env),
        "invalid listener: Could not get 404 and 503 answers from file system: \
         Could not read 503 answer file on path 503.html: not text"
    );
}

#[test]
fn two_listeners_on_one_address_are_refused() {
    let address = v4(0, 0, 0, 0, 8080);
    let listeners = || {
        vec![
            Listener::new(address, FileListenerProtocolConfig::Http),
            Listener::new(address, FileListenerProtocolConfig::Tcp),
        ]
    };
    let env = environment(Vec::new());
    assert_eq!(
        refusal(file_config(listeners(), Vec::new()), &env),
        "there's already a listener for address 0.0.0.0:8080"
    );
    let checked = file_config(listeners(), Vec::new()).checked().unwrap_err();
    assert_eq!(
        checked.to_text(),
        "listening address 0.0.0.0:8080 is already used in the configuration"
    );
    let apart = vec![
        Listener::new(address, FileListenerProtocolConfig::Http),
        Listener::new(v4(0, 0, 0, 0, 8081), FileListenerProtocolConfig::Tcp),
    ];
    assert!(file_config(apart, Vec::new()).checked().is_ok());
}

#[test]
fn a_public_address_excludes_the_proxy_protocol() {
    let mut listener = Listener::new(v4(0, 0, 0, 0, 80), FileListenerProtocolConfig::Http);
    listener.expect_proxy = Some(true);
    listener.public_address = Some(v4(1, 2, 3, 4, 81));
    let env = environment(Vec::new());
    assert_eq!(
        refusal(file_config(vec![listener], Vec::new()), &env),
        "the listener on 0.0.0.0:80 has incompatible options: it cannot use the expect proxy protocol and have a public_address field at the same time"
    );
}

#[test]
fn frontends_get_listeners_of_their_protocol() {
    let env = environment(vec![
        file("cert.pem", "certificate"),
        file("key.pem", "key"),
    ]);
    let mut secure = frontend(v4(0, 0, 0, 0, 8443));
    secure.certificate = Some("cert.pem".to_string());
    secure.key = Some("key.pem".to_string());
    let config = file_config(
        Vec::new(),
        vec![
            (
                "web".to_string(),
                http_cluster(vec![frontend(v4(0, 0, 0, 0, 8080)), secure]),
            ),
            (
                "db".to_string(),
                cluster(
                    FileClusterProtocolConfig::Tcp,
                    vec![tcp_frontend(v4(0, 0, 0, 0, 5432))],
                ),
            ),
        ],
    )
    .into("", &env)
    .expect("accepted");
    assert_eq!(config.http_listeners.len(), 1);
    assert_eq!(config.http_listeners[0].address, v4(0, 0, 0, 0, 8080));
    assert_eq!(config.https_listeners.len(), 1);
    assert_eq!(config.https_listeners[0].address, v4(0, 0, 0, 0, 8443));
    assert_eq!(config.https_listeners[0].certificate, None);
    assert_eq!(config.tcp_listeners.len(), 1);
    assert_eq!(config.tcp_listeners[0].address, v4(0, 0, 0, 0, 5432));
    assert_eq!(config.clusters[0].0, "web");
    assert_eq!(config.clusters[1].0, "db");
}

#[test]
fn frontends_do_not_share_listeners_of_other_protocols() {
    let env = environment(vec![file("cert.pem", "certificate")]);
    let address = v4(0, 0, 0, 0, 8080);
    let mut secure = frontend(address);
    secure.certificate = Some("cert.pem".to_string());
    let on = |protocol: FileListenerProtocolConfig, cluster: FileClusterConfig| {
        file_config(
            vec![Listener::new(address, protocol)],
            vec![("c".to_string(), cluster)],
        )
    };
    assert_eq!(
        refusal(
            on(
                FileListenerProtocolConfig::Tcp,
                http_cluster(vec![frontend(address)])
            ),
            &env
        ),
        "cannot set up a HTTP or HTTPS frontend on a TCP listener"
    );
    assert_eq!(
        refusal(
            on(FileListenerProtocolConfig::Http, http_cluster(vec![secure])),
            &env
        ),
        "cannot set up a HTTPS frontend on a HTTP listener"
    );
    assert_eq!(
        refusal(
            on(
                FileListenerProtocolConfig::Https,
                http_cluster(vec![frontend(address)])
            ),
            &env
        ),
        "cannot set up a HTTP frontend on a HTTPS listener"
    );
    assert_eq!(
        refusal(
            on(
                FileListenerProtocolConfig::Https,
                cluster(FileClusterProtocolConfig::Tcp, vec![tcp_frontend(address)])
            ),
            &env
        ),
        "cannot set up a TCP frontend on a HTTP listener"
    );
}

#[test]
fn an_https_listener_lends_its_certificate() {
    let env = environment(vec![
        file("cert.pem", "certificate"),
        file("key.pem", "key"),
    ]);
    let address = v4(0, 0, 0, 0, 8443);
    let mut listener = Listener::new(address, FileListenerProtocolConfig::Https);
    listener.certificate = Some("cert.pem".to_string());
    listener.key = Some("key.pem".to_string());
    let config = file_config(
        vec![listener],
        vec![("c".to_string(), http_cluster(vec![frontend(address)]))],
    )
    .into("", &env)
    .expect("accepted");
    match &config.clusters[0].1 {
        ClusterConfig::Http(http) => {
            assert_eq!(http.frontends[0].certificate, Some("certificate".to_string()));
            assert_eq!(http.frontends[0].key, Some("key".to_string()));
            assert_eq!(http.frontends[0].certificate_chain, Some(Vec::new()));
        }
        ClusterConfig::Tcp(_) => panic!("an HTTP cluster was described"),
    }
}

#[test]
fn what_is_lent_stays_when_listeners_come_later() {
    let env = environment(vec![
        file("cert.pem", "certificate"),
        file("key.pem", "key"),
        file("other.pem", "another certificate"),
    ]);
    let address = v4(0, 0, 0, 0, 8443);
    let mut listener = Listener::new(address, FileListenerProtocolConfig::Https);
    listener.certificate = Some("cert.pem".to_string());
    listener.key = Some("key.pem".to_string());
    // a frontend may come with a key of its own, but without certificate it borrows all three
    let keyed = FileClusterFrontendConfig {
        key: Some("other.pem".to_string()),
        ..frontend(address)
    };
    let certified = FileClusterFrontendConfig {
        certificate: Some("other.pem".to_string()),
        ..frontend(v4(0, 0, 0, 0, 9443))
    };
    let config = file_config(
        vec![listener],
        vec![
            ("c".to_string(), http_cluster(vec![keyed])),
            ("d".to_string(), http_cluster(vec![certified])),
        ],
    )
    .into("", &env)
    .expect("accepted");
    assert_eq!(config.https_listeners.len(), 2);
    assert_eq!(config.https_listeners[0].address, address);
    match &config.clusters[0].1 {
        ClusterConfig::Http(http) => {
            let lent = &config.https_listeners[0];
            assert_eq!(http.frontends[0].certificate, lent.certificate);
            assert_eq!(http.frontends[0].certificate, Some("certificate".to_string()));
            assert_eq!(http.frontends[0].key, lent.key);
            assert_eq!(http.frontends[0].key, Some("key".to_string()));
            assert_eq!(
                http.frontends[0].certificate_chain.as_ref(),
                Some(&lent.certificate_chain)
            );
        }
        ClusterConfig::Tcp(_) => panic!("an HTTP cluster was described"),
    }
}

#[test]
fn listeners_are_where_the_file_needs_them() {
    let env = environment(vec![file("cert.pem", "certificate")]);
    let described = v4(0, 0, 0, 0, 8080);
    let web = v4(0, 0, 0, 0, 8081);
    let safe = v4(0, 0, 0, 0, 8443);
    let raw = v4(0, 0, 0, 0, 9000);
    let certified = FileClusterFrontendConfig {
        certificate: Some("cert.pem".to_string()),
        ..frontend(safe)
    };
    let config = file_config(
        vec![Listener::new(described, FileListenerProtocolConfig::Http)],
        vec![
            (
                "web".to_string(),
                http_cluster(vec![frontend(web), frontend(described), certified]),
            ),
            (
                "raw".to_string(),
                cluster(
                    FileClusterProtocolConfig::Tcp,
                    vec![tcp_frontend(raw), tcp_frontend(raw)],
                ),
            ),
        ],
    )
    .into("", &env)
    .expect("accepted");
    let http: Vec<SocketAddress> = config.http_listeners.iter().map(|l| l.address).collect();
    let https: Vec<SocketAddress> = config.https_listeners.iter().map(|l| l.address).collect();
    let tcp: Vec<SocketAddress> = config.tcp_listeners.iter().map(|l| l.address).collect();
    assert_eq!(http, vec![described, web]);
    assert_eq!(https, vec![safe]);
    assert_eq!(tcp, vec![raw]);
}

#[test]
fn frontends_with_wrong_fields_are_refused() {
    let env = environment(Vec::new());
    let address = v4(0, 0, 0, 0, 9000);
    let tcp = |change: fn(&mut FileClusterFrontendConfig)| {
        let mut f = tcp_frontend(address);
        change(&mut f);
        f.to_tcp_front().unwrap_err().to_text()
    };
    assert_eq!(
        tcp(|f| f.hostname = Some("a".to_string())),
        "invalid 'hostname' field for TCP frontend"
    );
    assert_eq!(
        tcp(|f| f.path = Some("/".to_string())),
        "invalid 'path_prefix' field for TCP frontend"
    );
    assert_eq!(
        tcp(|f| f.certificate = Some("a".to_string())),
        "invalid 'certificate' field for TCP frontend"
    );
    assert_eq!(
        tcp(|f| f.certificate_chain = Some("a".to_string())),
        "invalid 'certificate_chain' field for TCP frontend"
    );
    assert_eq!(
        refusal(
            file_config(
                Vec::new(),
                vec![(
                    "web".to_string(),
                    http_cluster(vec![FileClusterFrontendConfig {
                        hostname: None,
                        ..frontend(address)
                    }])
                )]
            ),
            &env
        ),
        "error parsing cluster configuration for cluster web: \
         Could not convert frontend config to http frontend: \
         HTTP frontend should have a 'hostname' field"
    );
    let mut keyed = frontend(address);
    keyed.key = Some("key.pem".to_string());
    let env = environment(vec![LoadedFile {
        path: "key.pem".to_string(),
        content: FileContent::CannotOpen("no such file".to_string()),
    }]);
    assert_eq!(
        keyed.to_http_front("web", &env).unwrap_err().to_text(),
        "cannot load key at path 'key.pem': no such file"
    );
    let mut certified = frontend(address);
    certified.certificate = Some("key.pem".to_string());
    assert_eq!(
        certified.to_http_front("web", &env).unwrap_err().to_text(),
        "cannot load certificate at path 'key.pem': no such file"
    );
    let mut chained = frontend(address);
    chained.certificate_chain = Some("key.pem".to_string());
    assert_eq!(
        chained.to_http_front("web", &env).unwrap_err().to_text(),
        "cannot load certificate chain at path key.pem: no such file"
    );
}

#[test]
fn paths_are_prefixes_by_default() {
    let env = environment(Vec::new());
    let path_of = |path: Option<&str>, path_type: Option<PathRuleType>| {
        let mut f = frontend(v4(0, 0, 0, 0, 80));
        f.path = path.map(|p| p.to_string());
        f.path_type = path_type;
        f.to_http_front("c", &env).expect("a frontend").path
    };
    assert_eq!(path_of(None, None), PathRule::Prefix(String::new()));
    assert_eq!(path_of(Some("/a"), None), PathRule::Prefix("/a".to_string()));
    assert_eq!(
        path_of(Some("/a"), Some(PathRuleType::Regex)),
        PathRule::Regex("/a".to_string())
    );
    assert_eq!(
        path_of(Some("/a"), Some(PathRuleType::Equals)),
        PathRule::Equals("/a".to_string())
    );
}

#[test]
fn listeners_of_a_tcp_cluster_agree_on_the_proxy_protocol() {
    let env = environment(Vec::new());
    let (a, b) = (v4(0, 0, 0, 0, 1), v4(0, 0, 0, 0, 2));
    let described = || cluster(
        FileClusterProtocolConfig::Tcp,
        vec![tcp_frontend(a), tcp_frontend(b)],
    );
    assert_eq!(
        described()
            .to_cluster_config("c", &vec![a], &env)
            .unwrap_err()
            .to_text(),
        "all the listeners for cluster c should have the same expect_proxy option"
    );
    let protocol = |send: Option<bool>, expect: Vec<SocketAddress>| {
        let mut c = described();
        c.send_proxy = send;
        match c.to_cluster_config("c", &expect, &env).expect("a cluster") {
            ClusterConfig::Tcp(tcp) => tcp.proxy_protocol,
            ClusterConfig::Http(_) => panic!("a TCP cluster was described"),
        }
    };
    assert_eq!(protocol(None, vec![]), None);
    assert_eq!(protocol(Some(true), vec![]), Some(ProxyProtocolConfig::SendHeader));
    assert_eq!(
        protocol(Some(false), vec![a, b]),
        Some(ProxyProtocolConfig::ExpectHeader)
    );
    assert_eq!(
        protocol(Some(true), vec![a, b]),
        Some(ProxyProtocolConfig::RelayHeader)
    );
}

#[test]
fn the_current_directory_has_to_be_known() {
    let mut env = environment(Vec::new());
    env.current_dir = CurrentDir::Unavailable;
    let config = || FileConfig {
        command_socket: Some("./sock".to_string()),
        ..Worker::empty_file_config()
    };
    assert_eq!(refusal(config(), &env), "env path not found");
    env.current_dir = CurrentDir::NotUnicode;
    assert_eq!(refusal(config(), &env), "command socket path not valid");
    env.current_dir = CurrentDir::Known("/".to_string());
    assert_eq!(
        config().into("", &env).expect("accepted").command_socket,
        "./sock"
    );
    assert_eq!(
        Worker::empty_file_config()
            .into("", &env)
            .expect("accepted")
            .command_socket,
        "/sozu.sock"
    );
}

#[test]
fn automatic_saving_needs_a_path() {
    let env = environment(Vec::new());
    let config = FileConfig {
        automatic_state_save: Some(true),
        ..Worker::empty_file_config()
    };
    assert_eq!(
        refusal(config, &env),
        "cannot activate automatic state save if the 'saved_state` option is not set"
    );
}

fn order_of(message: &CommandRequest) -> &ProxyRequestOrder {
    match &message.order {
        CommandRequestOrder::Proxy(order) => order,
        other => panic!("unexpected order {:?}", other),
    }
}

fn web_config(activate: bool) -> Config {
    let env = environment(vec![
        file("cert.pem", "certificate"),
        file("key.pem", "key"),
    ]);
    let mut secure = frontend(v4(0, 0, 0, 0, 8443));
    secure.certificate = Some("cert.pem".to_string());
    secure.key = Some("key.pem".to_string());
    let mut file_config = file_config(
        vec![Listener::new(
            v4(0, 0, 0, 0, 5432),
            FileListenerProtocolConfig::Tcp,
        )],
        vec![(
            "web".to_string(),
            http_cluster(vec![frontend(v4(0, 0, 0, 0, 8080)), secure]),
        )],
    );
    file_config.activate_listeners = Some(activate);
    file_config.into("", &env).expect("accepted")
}

#[test]
fn messages_set_up_what_the_configuration_describes() {
    let messages = web_config(true).generate_config_messages();
    for (i, message) in messages.iter().enumerate() {
        assert_eq!(message.id, format!("CONFIG-{}", i));
        assert_eq!(message.version, 0);
        assert_eq!(message.worker_id, None);
    }
    assert_eq!(messages.len(), 11);
    assert!(matches!(order_of(&messages[0]), ProxyRequestOrder::AddHttpListener(_)));
    assert!(matches!(order_of(&messages[1]), ProxyRequestOrder::AddHttpsListener(_)));
    assert!(matches!(order_of(&messages[2]), ProxyRequestOrder::AddTcpListener(_)));
    assert!(matches!(order_of(&messages[3]), ProxyRequestOrder::AddCluster(_)));
    match order_of(&messages[4]) {
        ProxyRequestOrder::AddHttpFrontend(f) => {
            assert_eq!(f.route, Route::ClusterId("web".to_string()));
            assert_eq!(f.hostname, "lolcatho.st");
        }
        other => panic!("unexpected order {:?}", other),
    }
    match order_of(&messages[5]) {
        ProxyRequestOrder::AddCertificate(c) => {
            assert_eq!(c.names, vec!["lolcatho.st".to_string()]);
            assert_eq!(c.certificate.certificate, "certificate");
            assert_eq!(c.certificate.key, "key");
        }
        other => panic!("unexpected order {:?}", other),
    }
    assert!(matches!(order_of(&messages[6]), ProxyRequestOrder::AddHttpsFrontend(_)));
    match order_of(&messages[7]) {
        ProxyRequestOrder::AddBackend(b) => {
            assert_eq!(b.backend_id, "web-0-127.0.0.1:1026");
            assert_eq!(b.load_balancing_parameters.map(|p| p.weight), Some(100));
        }
        other => panic!("unexpected order {:?}", other),
    }
    let mut started = Vec::new();
    for message in &messages[8..] {
        match order_of(message) {
            ProxyRequestOrder::ActivateListener(a) => started.push(a.address),
            other => panic!("unexpected order {:?}", other),
        }
    }
    assert_eq!(
        started,
        vec![
            v4(0, 0, 0, 0, 8080),
            v4(0, 0, 0, 0, 8443),
            v4(0, 0, 0, 0, 5432)
        ]
    );
    assert_eq!(web_config(false).generate_config_messages().len(), 8);
}

#[test]
fn message_numbers_start_again_after_a_byte() {
    let env = environment(Vec::new());
    let listeners = (0..150)
        .map(|i| Listener::new(v4(0, 0, 0, 0, 1000 + i), FileListenerProtocolConfig::Tcp))
        .collect();
    let config = file_config(listeners, Vec::new())
        .into("", &env)
        .expect("accepted");
    let messages = config.generate_config_messages();
    assert_eq!(messages.len(), 300);
    assert_eq!(messages[255].id, "CONFIG-255");
    assert_eq!(messages[256].id, "CONFIG-0");
    assert_eq!(messages[299].id, "CONFIG-43");
}

#[test]
fn the_command_socket_is_relative_to_the_configuration() {
    let mut config = web_config(true);
    config.config_path = "/etc/sozu/config.toml".to_string();
    config.command_socket = "./run/sock".to_string();
    assert_eq!(
        config.socket_folder().expect("a folder"),
        Some("/etc/sozu/./run".to_string())
    );
    let known = ResolvedFolder::Known("/srv/run".to_string());
    assert_eq!(
        config.command_socket_path(&known).expect("a path"),
        "/srv/run/sock"
    );
    assert_eq!(
        config
            .command_socket_path(&ResolvedFolder::Failed("no such folder".to_string()))
            .unwrap_err()
            .to_text(),
        "could not get command socket folder path: \"./run\": no such folder"
    );
    assert_eq!(
        config
            .command_socket_path(&ResolvedFolder::NotUnicode)
            .unwrap_err()
            .to_text(),
        "could not parse command socket path"
    );
    config.command_socket = "..".to_string();
    assert_eq!(
        config.command_socket_path(&known).unwrap_err().to_text(),
        "could not get command socket file name"
    );
    assert_eq!(
        config
            .command_socket_path(&ResolvedFolder::NotUnicode)
            .unwrap_err()
            .to_text(),
        "could not get command socket file name"
    );
    config.config_path = "/".to_string();
    assert_eq!(
        config.socket_folder().unwrap_err().to_text(),
        "could not get parent folder of configuration file"
    );
}

#[test]
fn the_saved_state_has_to_be_there() {
    let mut config = web_config(true);
    config.config_path = "/etc/sozu/config.toml".to_string();
    assert_eq!(config.saved_state_path(Some("ignored".to_string())), Ok(None));
    config.saved_state = Some("state.json".to_string());
    assert_eq!(
        config.saved_state_file(),
        Ok(Some("/etc/sozu/state.json".to_string()))
    );
    assert_eq!(
        config
            .saved_state_path(Some("no such file".to_string()))
            .unwrap_err()
            .to_text(),
        "could not get saved state path from config file input \"state.json\": no such file"
    );
    let verified = config.with_verified_state(None).expect("accepted");
    assert_eq!(verified.saved_state, Some("/etc/sozu/state.json".to_string()));
    let refused = verified
        .with_verified_state(Some("gone".to_string()))
        .map(|_| ())
        .unwrap_err();
    assert_eq!(
        refused.to_text(),
        "Invalid saved_state in the config. Check your config file: \
         could not get saved state path from config file input \"/etc/sozu/state.json\": gone"
    );
}

#[test]
fn files_are_loaded_with_their_saved_state() {
    let env = environment(Vec::new());
    let text = |r: Result<Config, _>| -> String {
        let r: Result<Config, sozu_core::config::error::ConfigError> = r;
        match r {
            Ok(_) => panic!("the file should be refused"),
            Err(e) => e.to_text(),
        }
    };
    let path = "/etc/sozu/config.toml";
    let unreadable = FileConfig::load_from_path(ParsedFile::Unreadable("denied".to_string()));
    assert_eq!(
        text(Config::load_from_path(unreadable, path, &env, None)),
        "Could not load the config file: denied"
    );
    let malformed = FileConfig::load_from_path(ParsedFile::Malformed("expected a key".to_string()));
    assert_eq!(
        text(Config::load_from_path(malformed, path, &env, None)),
        "Could not load the config file: decoding error: expected a key"
    );
    let with_state = || {
        FileConfig::load_from_path(ParsedFile::Parsed(FileConfig {
            saved_state: Some("state.json".to_string()),
            ..Worker::empty_file_config()
        }))
    };
    assert_eq!(
        with_state().expect("a file").state_file(path),
        Some("/etc/sozu/state.json".to_string())
    );
    let config = Config::load_from_path(with_state(), path, &env, None).expect("accepted");
    assert_eq!(config.saved_state, Some("/etc/sozu/state.json".to_string()));
    assert_eq!(
        text(Config::load_from_path(
            with_state(),
            path,
            &env,
            Some("no such file".to_string())
        )),
        "Invalid saved_state in the config. Check your config file: \
         could not get saved state path from config file input \"state.json\": no such file"
    );
    let contradictory = FileConfig::load_from_path(ParsedFile::Parsed(FileConfig {
        automatic_state_save: Some(true),
        ..Worker::empty_file_config()
    }));
    assert_eq!(
        text(Config::load_from_path(contradictory, path, &env, None)),
        "Could not parse config from file: \
         cannot activate automatic state save if the 'saved_state` option is not set"
    );
}

#[test]
fn mistakes_are_shown_in_their_line() {
    let file = "a = 1\r\nb = ?\nc = 3";
    assert_eq!(line_of(file, 0), Some("a = 1".to_string()));
    assert_eq!(line_of(file, 2), Some("c = 3".to_string()));
    assert_eq!(line_of(file, 3), None);
    assert_eq!(line_of("a\n", 1), None);
    assert_eq!(
        display_toml_error(file, "unexpected character", Some((1, 4))),
        vec![
            "error parsing the configuration file: unexpected character".to_string(),
            "2| b = ?".to_string(),
            "       ^".to_string(),
        ]
    );
    assert_eq!(display_toml_error(file, "oops", None).len(), 1);
}

#[test]
fn all_named_files_are_listed() {
    let mut listener = Listener::new(v4(0, 0, 0, 0, 443), FileListenerProtocolConfig::Https);
    listener.answer_404 = Some("404.html".to_string());
    listener.key = Some("listener.key".to_string());
    let mut f = frontend(v4(0, 0, 0, 0, 443));
    f.certificate = Some("front.crt".to_string());
    f.key = Some("front.key".to_string());
    let mut c = http_cluster(vec![f]);
    c.answer_503 = Some("503.html".to_string());
    assert_eq!(
        file_config(vec![listener], vec![("c".to_string(), c)]).files(),
        vec!["404.html", "listener.key", "503.html", "front.key", "front.crt"]
    );
}

#[test]
fn addresses_are_written_as_usual() {
    let text = |ip: u128, port: u16, flowinfo: u32, scope_id: u32| {
        SocketAddress::V6 {
            ip,
            port,
            flowinfo,
            scope_id,
        }
        .to_text()
    };
    assert_eq!(v4(192, 168, 0, 1, 443).to_text(), "192.168.0.1:443");
    assert_eq!(text(1, 80, 0, 0), "[::1]:80");
    assert_eq!(text(0x2001_0db8 << 96 | 0xff, 8080, 0, 0), "[2001:db8::ff]:8080");
    assert_eq!(text(0xfe80 << 112 | 1, 1, 0, 3), "[fe80::1%3]:1");
    assert_eq!(text(0xffff_7f00_0001, 9, 0, 0), "[::ffff:127.0.0.1]:9");
}

#[test]
fn maps_are_walked_in_the_order_of_their_keys() {
    let mut map: TextMap<String> = TextMap::new();
    for key in ["b", "a", "c", "b"] {
        map.insert(key.to_string(), format!("{}!", key));
    }
    map.insert("a".to_string(), "first".to_string());
    assert_eq!(map.len(), 3);
    assert_eq!(map.entry(0), &("a".to_string(), "first".to_string()));
    assert_eq!(map.entry(2).0, "c");
    assert_eq!(map.get(&"b".to_string()), Some(&"b!".to_string()));
    assert_eq!(map.get(&"d".to_string()), None);
}
