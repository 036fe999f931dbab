use tray_node::config::{
    dashboard_path, default_server_tcp_listener, default_user, default_user_candidate, default_workers,
    AppConfig, Config, ConfigHost, SSLConfig,
};
use tray_node::error::ErrorType;
use tray_node::redis::RedisConfig;
use tray_node::runtime::{BuildInfo, Runtime, RuntimeEnv};
use tray_node::server_state::{server_settings, tcp_socket_of, TcpSocket};

fn runtime(no_limit: Option<&str>) -> Runtime {
    Runtime::new(
        RuntimeEnv {
            exe_file: "/opt/app/bin/tray".to_string(),
            exe_dir: "/opt/app/bin".to_string(),
            cwd: "/home/me".to_string(),
            root_dir_var: None,
            themes_dir_var: None,
            config_file_var: None,
            no_limit_var: no_limit.map(|s| s.to_string()),
            invocation_id_set: false,
            journal_stream_set: false,
            pid: 42,
            uid: 1000,
            initial_root: false,
            is_root: false,
            is_cargo: false,
        },
        BuildInfo {
            name: "tray-node".to_string(),
            version: "1.2.3".to_string(),
            description: "d".to_string(),
            author: "a".to_string(),
            build_timestamp: "t".to_string(),
            build_timestamp_date: "2024-01-01".to_string(),
        },
    )
}

fn strings(v: &[&str]) -> Vec<String> {
    v.iter().map(|s| s.to_string()).collect()
}

fn app(tcp: &[&str], tls: &[&str]) -> AppConfig {
    let mut ssl = SSLConfig::default();
    ssl.listen = strings(tls);
    AppConfig {
        socket: "".to_string(),
        session_name: "  ".to_string(),
        csrf_durations: 1,
        user: "deploy".to_string(),
        datagram: "".to_string(),
        tcp: strings(tcp),
        ssl,
        workers: 0,
        mode: "Production".to_string(),
        dashboard_path: "/Admin Panel/".to_string(),
        operation_timeout: 0,
        request_timeout: 5000,
        disconnect_timeout: 7,
        secret_key: "s".to_string(),
        salt_key: "k".to_string(),
        max_connections: 10,
        max_connections_rate: 0,
        backlog: 100000,
        rlimit_nofile: 10,
        keep_alive: 99999,
        auto_clean_memory: true,
        auto_clean_memory_size: "64m".to_string(),
        auto_clean_memory_interval: "3600".to_string(),
    }
}

fn host(cpus: Option<usize>, interval: u64, root: bool) -> ConfigHost {
    ConfigHost { available_cpus: cpus, interval_secs: interval, user_is_root: root, default_user: "www-data".to_string() }
}

#[test]
fn normalized_settings() {
    let rt = runtime(None);
    let a = app(&["127.0.0.1:8080", "localhost:8080", "0.0.0.0:443"], &[":8443", "10.0.0.1:80"]);
    assert!(a.has_readable_listeners());
    let c = a.normalized(&rt, &host(Some(4), 10, false)).unwrap();
    assert_eq!(c.tcp, strings(&["127.0.0.1:8080", "10.0.0.1:80"]));
    assert_eq!(c.ssl.listen, strings(&["0.0.0.0:443", "0.0.0.0:8443"]));
    assert_eq!(c.socket, "/dev/shm/1000-tray-node.sock");
    assert_eq!(c.datagram, "tray-node/dgram/1.2.3/1000");
    assert_eq!(c.session_name, "vault");
    assert_eq!(c.csrf_durations, 5);
    assert_eq!(c.workers, 4);
    assert_eq!(c.max_connections, 128);
    assert_eq!(c.max_connections_rate, 1024);
    assert_eq!(c.backlog, 65535);
    assert_eq!(c.rlimit_nofile, 4096);
    assert_eq!(c.operation_timeout, 1);
    assert_eq!(c.request_timeout, 3600);
    assert_eq!(c.disconnect_timeout, 7);
    assert_eq!(c.keep_alive, 43200);
    assert_eq!(c.ssl.session_cache, 32);
    assert_eq!(c.auto_clean_memory_size, "134217728");
    assert_eq!(c.auto_clean_memory_interval, "30");
    assert_eq!(c.dashboard_path, "adminpanel");
    assert_eq!(c.user, "deploy");
    assert!(c.is_production());
    assert_eq!(c.salt_session_name(), "vault_salt");
    assert_eq!(c.keep_alive_duration(), Some(43200));
}

#[test]
fn normalized_limits_when_lifted() {
    let rt = runtime(Some("true"));
    let mut a = app(&[], &[]);
    a.max_connections = 2_000_000;
    a.max_connections_rate = 70000;
    a.workers = 100;
    a.session_name = " sid ".to_string();
    a.user = "root".to_string();
    a.ssl.session_cache = 1;
    a.ssl.key = "  ".to_string();
    a.ssl.cert = "cert.pem".to_string();
    let c = a.normalized(&rt, &host(None, 99_999_999, true)).unwrap();
    assert_eq!(c.tcp, default_server_tcp_listener());
    assert!(c.ssl.listen.is_empty());
    assert_eq!(c.max_connections, 1048576);
    assert_eq!(c.max_connections_rate, 70000);
    assert_eq!(c.workers, 5);
    assert_eq!(c.session_name, "sid");
    assert_eq!(c.user, "www-data");
    assert_eq!(c.ssl.session_cache, 2);
    assert_eq!(c.ssl.key, "");
    assert_eq!(c.ssl.cert, "cert.pem");
    assert_eq!(c.auto_clean_memory_interval, "2592000");
    assert!(!c.ssl.is_ssl_configured());
}

#[test]
fn listener_errors() {
    let rt = runtime(None);
    let e = app(&["127.0.0.1:http"], &[]).normalized(&rt, &host(Some(1), 60, false)).unwrap_err();
    assert_eq!(e.error_type, ErrorType::Parse);
    assert_eq!(e.message, "invalid digit found in string");
    let e = app(&["127.0.0.1:"], &[]).normalized(&rt, &host(Some(1), 60, false)).unwrap_err();
    assert_eq!(e.message, "cannot parse integer from empty string");
    let e = app(&["127.0.0.1:99999999999999999999"], &[]).normalized(&rt, &host(Some(1), 60, false)).unwrap_err();
    assert_eq!(e.message, "number too large to fit in target type");
    let e = app(&["127.0.0.1:0"], &[]).normalized(&rt, &host(Some(1), 60, false)).unwrap_err();
    assert_eq!(e.error_type, ErrorType::InvalidData);
    assert_eq!(e.message, "Invalid TCP port: 0");
    let e = app(&["example.com:80"], &[]).normalized(&rt, &host(Some(1), 60, false)).unwrap_err();
    assert_eq!(e.error_type, ErrorType::InvalidData);
    assert_eq!(e.message, "Invalid TCP Listener for example.com:80");
    let e = app(&["127.0.0.1:80"], &["::1]:443"]).normalized(&rt, &host(Some(1), 60, false)).unwrap_err();
    assert_eq!(e.message, "Invalid TCP Listener for ::1]:443");
    assert!(!app(&["8080"], &[]).has_readable_listeners());
    assert!(app(&["bad", "8080"], &[]).has_readable_listeners());
    assert!(!app(&["127.0.0.1:80"], &["443"]).has_readable_listeners());
}

#[test]
fn dashboard_paths() {
    assert_eq!(dashboard_path("/Admin/"), "admin");
    assert_eq!(dashboard_path("//"), "dashboard");
    assert_eq!(dashboard_path("my panel_1"), "mypanel_1");
    assert_eq!(dashboard_path("-panel"), "dashboard");
    assert_eq!(dashboard_path("panel-"), "dashboard");
    assert_eq!(dashboard_path("a"), "a");
    assert_eq!(dashboard_path("$$$"), "dashboard");
    assert_eq!(dashboard_path("ops/tools"), "opstools");
}

#[test]
fn default_settings() {
    assert_eq!(default_workers(None), 1);
    assert_eq!(default_workers(Some(8)), 8);
    assert_eq!(default_user_candidate(true, Some("svc"), "root"), "svc");
    assert_eq!(default_user_candidate(true, Some(""), "me"), "me");
    assert_eq!(default_user_candidate(false, Some("svc"), "me"), "me");
    assert_eq!(default_user("root", true), "www-data");
    assert_eq!(default_user("me", false), "me");
    let ssl = SSLConfig::default();
    assert!(ssl.auto_create());
    assert_eq!(ssl.session_cache(), 32);
}

#[test]
fn loaded_configuration() {
    let rt = runtime(None);
    let a = app(&["127.0.0.1:9000"], &[]);
    let c = Config::load_from_content(a, RedisConfig::default(), "/etc/tray/./config.yaml", &rt, &host(Some(2), 60, false)).unwrap();
    assert_eq!(c.file(), "/etc/tray/config.yaml");
    assert_eq!(c.get_socket().unwrap(), "/dev/shm/1000-tray-node.sock");
    assert_eq!(c.get_datagram_identity(), "tray-node/dgram/1.2.3/1000");
    assert_eq!(c.get_datagram_server_identity(), "tray-node/dgram/1.2.3/1000/server");
    assert_eq!(c.get_datagram_client_identity(42), "tray-node/dgram/1.2.3/1000/client/42");
    assert!(c.is_production());
    let e = Config::load_from_content(app(&["127.0.0.1:0"], &[]), RedisConfig::default(), "c.yaml", &rt, &host(Some(2), 60, false)).unwrap_err();
    assert_eq!(e.error_type, ErrorType::InvalidData);
}

#[test]
fn reported_server_settings() {
    let rt = runtime(None);
    let c = Config::load_from_content(app(&["127.0.0.1:9000"], &[":8443"]), RedisConfig::default(), "/etc/tray/config.yaml", &rt, &host(Some(2), 60, false)).unwrap();
    let s = server_settings(Some(&c), Some(2), 60);
    assert_eq!(s.max_connections, 128);
    assert_eq!(s.backlog, 65535);
    assert_eq!(s.connection_rate, 512);
    assert_eq!(s.config_file.as_deref(), Some("/etc/tray/config.yaml"));
    assert!(s.auto_clean_memory);
    assert_eq!(s.auto_clean_memory_size, 134217728);
    assert_eq!(s.auto_clean_memory_interval, 60);
    assert_eq!(s.environment, "Production");
    let d = server_settings(None, Some(4), 60);
    assert_eq!((d.max_connections, d.backlog, d.connection_rate), (25000, 4096, 1024));
    assert_eq!(d.config_file, None);
    assert_eq!((d.auto_clean_memory_size, d.auto_clean_memory_interval), (402653184, 3600));
    assert_eq!(d.environment, "N/A");
    let t = tcp_socket_of(None, Some(&c));
    assert_eq!((t.http, t.https), (strings(&["127.0.0.1:9000"]), strings(&["0.0.0.0:8443"])));
    let t = tcp_socket_of(Some(TcpSocket { http: strings(&["a:1"]), https: vec![] }), Some(&c));
    assert_eq!(t.http, strings(&["a:1"]));
    let t = tcp_socket_of(None, None);
    assert!(t.http.is_empty() && t.https.is_empty());
}

#[test]
fn daemon_detection() {
    assert!(!Runtime::is_daemon(true, 1234, 800));
    assert!(Runtime::is_daemon(false, 1234, 800));
    assert!(Runtime::is_daemon(true, -1, 800));
    assert!(Runtime::is_daemon(true, 1234, 1));
}

#[test]
fn configuration_path_cleaned() {
    let rt = runtime(None);
    for (given, clean) in [
        ("a/../../b.yaml", "../b.yaml"),
        ("//x//y.yaml", "/x/y.yaml"),
        ("/../c.yaml", "/c.yaml"),
        ("./d/./e.yaml/", "d/e.yaml"),
    ] {
        let c = Config::load_from_content(app(&["127.0.0.1:9000"], &[]), RedisConfig::default(), given, &rt, &host(Some(2), 60, false)).unwrap();
        assert_eq!(c.file(), clean);
    }
}
