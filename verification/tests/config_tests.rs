use tray_node::application::{App, LogLevel};
use tray_node::console::ConsoleResult;
use tray_node::console::{Cli, ConsoleArguments};
use tray_node::error::ErrorType;
use tray_node::maxmind::{GeoEdition, GeoEditionType, GeoEditionTypes, MaxMindLicense, Maxmind};
use tray_node::redis::{RedisConfig, RedisShadow};
use tray_node::runtime::{BuildInfo, Runtime, RuntimeEnv};

const GOOD_KEY: &str = "Ab12Cd_0123456789abcdefghijKLMNOPQRS_mmk";

#[test]
fn license_key_shape() {
    assert_eq!(GOOD_KEY.len(), 40);
    assert!(MaxMindLicense::validate_license_key(GOOD_KEY));
    assert!(!MaxMindLicense::validate_license_key("short_key_mmk"));
    assert!(!MaxMindLicense::validate_license_key("Ab12Cd_0123456789abcdefghijKLMNOPQRS_mmx"));
    assert!(!MaxMindLicense::validate_license_key("Ab12Cd_0123456789abcdefghij_LMNOPQRS_mmk"));
    assert!(!MaxMindLicense::validate_license_key("Ab12C__0123456789abcdefghijKLMNOPQRS_mmk"));
    assert!(!MaxMindLicense::validate_license_key("Ab12Cd_01234567-9abcdefghijKLMNOPQRS_mmk"));
    assert!(!MaxMindLicense::validate_license_key("Ab12Cd_0123456789abcdefghijKLMNOPQRSé_mmk"));
    assert!(!MaxMindLicense::validate_license_key("Ab12Cd_0123456789abcdefghijKLMNOPQRSX_mmk"));
    let l = MaxMindLicense::new(GOOD_KEY);
    assert!(l.is_valid());
    assert_eq!(l.license_key(), GOOD_KEY);
    assert!(l.license_match(&MaxMindLicense::new(GOOD_KEY)));
    assert!(!l.license_match(&MaxMindLicense::new("other")));
}

#[test]
fn edition_databases() {
    let l = MaxMindLicense::new(GOOD_KEY);
    let t = GeoEditionTypes::new(GeoEdition::GeoLite2, &l);
    assert!(t.is_lite());
    assert_eq!(t.get_asn().identity(), "GeoLite2-ASN");
    assert_eq!(t.get_country().identity(), "GeoLite2-Country");
    assert_eq!(t.get_city().file_name(), "GeoLite2-City.mmdb");
    assert_eq!(t.get_city().license_key(), GOOD_KEY);
    assert_eq!(*t.get_city().edition(), GeoEdition::GeoLite2);
    assert_eq!(
        t.get_asn().to_download_url(),
        format!(
            "https://download.maxmind.com/app/geoip_download?edition_id=GeoLite2-ASN&license_key={}&suffix=tar.gz",
            GOOD_KEY
        )
    );
    let p = GeoEdition::GeoIP2.edition_type(&l);
    assert!(!p.is_lite());
    assert_eq!(p.get_asn().identity(), "GeoIP2-ASN");
    assert_eq!(p.get_license().license_key(), GOOD_KEY);
    let q = GeoEdition::GeoIP2.edition_type_ref(&l);
    assert_eq!(*q.edition(), GeoEdition::GeoIP2);
    assert!(matches!(GeoEditionType::GeoIP2City(GeoEdition::GeoIP2, String::new()).identity().as_str(), "GeoIP2-City"));
}

#[test]
fn switching_license_keys() {
    let mut m = Maxmind::new(&MaxMindLicense::new(GOOD_KEY), GeoEdition::GeoLite2);
    let e = m.set_license_key(MaxMindLicense::new("bad")).unwrap_err();
    assert_eq!(e.error_type, ErrorType::InvalidInput);
    assert_eq!(e.message, "Invalid license key");
    assert_eq!(m.get_edition_types().get_license().license_key(), GOOD_KEY);
    let other = "Zz98Yy_0123456789abcdefghijKLMNOPQRS_mmk";
    let old = m.set_license_key(MaxMindLicense::new(other)).unwrap();
    assert_eq!(old.get_license().license_key(), GOOD_KEY);
    assert_eq!(m.get_edition_types().get_license().license_key(), other);
    assert_eq!(m.get_edition_types().get_city().license_key(), other);
    assert!(m.get_edition_types().is_lite());
    let same = m.set_license_key(MaxMindLicense::new(other)).unwrap();
    assert_eq!(same.get_license().license_key(), other);
}

fn shadow() -> RedisShadow {
    RedisShadow {
        host: String::new(),
        unix_socket: String::new(),
        port: 0,
        username: String::new(),
        password: String::new(),
        database: 99,
        max_pools: 0,
        minimum_idle_connections: 500,
        idle_timeout: 0,
        connect_timeout: 0,
    }
}

#[test]
fn redis_defaults_and_limits() {
    let d = RedisConfig::default();
    assert_eq!(d.host, "localhost");
    assert_eq!(d.port, 6379);
    assert_eq!((d.database, d.max_pools, d.minimum_idle_connections, d.idle_timeout, d.connect_timeout), (0, 10, 1, 600, 5));
    let c = RedisConfig::deserialize(shadow());
    assert_eq!(c.host, "localhost");
    assert_eq!(c.port, 6379);
    assert_eq!(c.database, 16);
    assert_eq!(c.max_pools, 1);
    assert_eq!(c.minimum_idle_connections, 64);
    assert_eq!(c.idle_timeout, 1);
    assert_eq!(c.connect_timeout, 0);
    let mut again = c.clone();
    again.reconfigure();
    assert_eq!((again.database, again.max_pools, again.minimum_idle_connections, again.idle_timeout), (16, 1, 64, 1));
}

#[test]
fn redis_connection_urls() {
    let d = RedisConfig::default();
    assert_eq!(d.connection_url(), "@localhost:6379/0");
    let err = d.to_connection_info().unwrap_err();
    assert_eq!(err.error_type, ErrorType::Other);
    let mut c = RedisConfig::default();
    c.username = "u".to_string();
    c.password = "p".to_string();
    c.database = 3;
    assert_eq!(c.connection_url(), "@u:p/3");
    c.username = String::new();
    assert_eq!(c.connection_url(), ":p/3");
    c.unix_socket = "/run/redis.sock".to_string();
    assert_eq!(c.connection_url(), "unix:///run/redis.sock");
    assert!(c.to_connection_info().is_ok());
}

fn env(root: Option<&str>, themes: Option<&str>, config: Option<&str>, no_limit: Option<&str>) -> RuntimeEnv {
    RuntimeEnv {
        exe_file: "/opt/app/bin/tray".to_string(),
        exe_dir: "/opt/app/bin".to_string(),
        cwd: "/home/me/work".to_string(),
        root_dir_var: root.map(|s| s.to_string()),
        themes_dir_var: themes.map(|s| s.to_string()),
        config_file_var: config.map(|s| s.to_string()),
        no_limit_var: no_limit.map(|s| s.to_string()),
        invocation_id_set: true,
        journal_stream_set: false,
        pid: 77,
        uid: 1000,
        initial_root: false,
        is_root: false,
        is_cargo: false,
    }
}

fn build() -> BuildInfo {
    BuildInfo {
        name: "tray-node".to_string(),
        version: "1.2.3".to_string(),
        description: "d".to_string(),
        author: "a".to_string(),
        build_timestamp: "t".to_string(),
        build_timestamp_date: "2024-01-01".to_string(),
    }
}

#[test]
fn runtime_directories() {
    let r = Runtime::new(env(None, None, None, None), build());
    assert_eq!(r.root_dir(), "/opt/app/bin");
    assert_eq!(r.var_dir(), "/opt/app/bin/var");
    assert_eq!(r.log_dir(), "/opt/app/bin/var/log");
    assert_eq!(r.cahe_downloads_dir(), "/opt/app/bin/var/cache/downloads");
    assert_eq!(r.acme_dir(), "/opt/app/bin/var/lib/acme");
    assert_eq!(r.uploads_dir(), "/opt/app/bin/storage/uploads");
    assert_eq!(r.temp_uploads_dir(), "/opt/app/bin/var/temp/uploads");
    assert_eq!(r.themes_dir(), "/opt/app/bin/themes");
    assert_eq!(r.config_file(), "/opt/app/bin/config.yaml");
    assert!(!r.has_limit_less());
    assert_eq!(r.u16_limitless(), 65535);
    assert_eq!(Runtime::shm_dir(), "/dev/shm");
    assert_eq!(r.socket_file(), "/dev/shm/1000-tray-node.sock");
    assert_eq!(r.datagram_server_identity(), "tray-node/dgram/1.2.3/1000/server");
    assert_eq!(r.datagram_client_identity(), "tray-node/dgram/1.2.3/1000/client/77");
    assert_eq!(r.app_version_full(), "1.2.3 (built 2024-01-01)");
    assert_eq!(Runtime::app_env_prefix(), "TN_");
    assert!(r.maybe_via_system_d());
    assert!(!r.maybe_via_journal());
    assert_eq!(r.pid(), 77);
}

#[test]
fn runtime_settings_from_environment() {
    let r = Runtime::new(env(Some("data/../srv//app/"), Some("skins"), Some("conf/app.yml"), Some(" TRUE ")), build());
    assert_eq!(r.root_dir(), "/home/me/work/srv/app");
    assert_eq!(r.themes_dir(), "/home/me/work/skins");
    assert_eq!(r.config_file(), "/home/me/work/conf/app.yml");
    assert!(r.has_limit_less());
    assert_eq!(r.u16_limitless(), 1048576);
    let r = Runtime::new(env(Some("/srv"), Some(""), Some("app.toml"), Some("1")), build());
    assert_eq!(r.root_dir(), "/srv");
    assert_eq!(r.themes_dir(), "/srv/themes");
    assert_eq!(r.config_file(), "/srv/config.yaml");
    assert!(r.has_limit_less());
    let r = Runtime::new(env(None, None, None, Some("yes")), build());
    assert!(!r.has_limit_less());
}

#[test]
fn config_file_for_a_command() {
    let r = Runtime::new(env(None, None, None, None), build());
    let mut global = ConsoleArguments::new();
    let mut local = ConsoleArguments::new();
    assert_eq!(r.config_file_of(&global, Some(&local)), "/opt/app/bin/config.yaml");
    global.config = Some("/etc/g.yaml".to_string());
    assert_eq!(r.config_file_of(&global, None), "/etc/g.yaml");
    local.config = Some("/etc/l.yaml".to_string());
    assert_eq!(r.config_file_of(&global, Some(&local)), "/etc/l.yaml");
}

#[test]
fn merging_arguments() {
    let mut prior = ConsoleArguments::new();
    prior.config = Some("a.yaml".to_string());
    prior.quiet = true;
    prior.allow_root = true;
    let merged = Cli::merge_arg_prioritize(&prior, None);
    assert_eq!(merged.config.as_deref(), Some("a.yaml"));
    assert!(merged.quiet && merged.allow_root);
    let mut extra = ConsoleArguments::new();
    extra.verbose = true;
    extra.trace = true;
    extra.allow_root = false;
    let merged = Cli::merge_arg_prioritize(&prior, Some(&extra));
    assert_eq!(merged.config.as_deref(), Some("a.yaml"));
    assert!(merged.quiet && merged.verbose && merged.trace && merged.allow_root);
    extra.config = Some("b.yaml".to_string());
    let merged = Cli::merge_arg_prioritize(&prior, Some(&extra));
    assert_eq!(merged.config.as_deref(), Some("b.yaml"));
}

#[test]
fn log_level_from_flags() {
    let mut a = ConsoleArguments::new();
    assert_eq!(App::filter_level(&a), LogLevel::Info);
    a.trace = true;
    assert_eq!(App::filter_level(&a), LogLevel::Trace);
    a.verbose = true;
    assert_eq!(App::filter_level(&a), LogLevel::Debug);
    a.quiet = true;
    assert_eq!(App::filter_level(&a), LogLevel::Off);
    a.development = true;
    assert_eq!(App::filter_level(&a), LogLevel::Trace);
    let global = ConsoleArguments::new();
    let mut local = ConsoleArguments::new();
    local.quiet = true;
    assert_eq!(App::compare_level(&local, &global), LogLevel::Off);
    assert_eq!(App::compare_level(&global, &local), LogLevel::Off);
    assert_eq!(App::filter_directive(LogLevel::Warn), "warn");
    assert_eq!(App::filter_directive(LogLevel::Off), "off");
    let mut app = App::new();
    assert!(!app.is_running());
    assert_eq!(app.begin_run(), None);
    assert_eq!(app.begin_run(), Some(ConsoleResult::Canceled));
    app.end_run();
    assert!(!app.is_running());
}
