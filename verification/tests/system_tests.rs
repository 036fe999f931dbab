use tray_node::acl::AclRule;
use tray_node::archive::{ArchiveEntry, Zip};
use tray_node::cert_store::{domain_store_key, files_given, wildcard_candidate, wildcard_name, CertStore, Resolution};
use tray_node::commander::{closes_socket_on, loop_start, loop_step, LoopAction, LoopState};
use tray_node::console::Cli;
use tray_node::dns::{Dns, DnsProvider};
use tray_node::download::DownloadFileSaver;
use tray_node::error::{AcmeFailure, Error, ErrorSource, ErrorType};
use tray_node::events::{Channel, EventManager};
use tray_node::factory::Factory;
use tray_node::hooks::{HookItem, Hooks};
use tray_node::middleware::{DispatchStep, Dispatcher, MiddlewareEntry, MiddlewareManager};
use tray_node::multipart::{MultipartData, SavedFile};
use tray_node::runtime::{BuildInfo, Runtime, RuntimeEnv};
use tray_node::tls::{check_certificate_size, check_key_size, list_sans, sans_readable};
use tray_node::config::{AppConfig, SSLConfig};
use tray_node::server_state::{auto_clean_enabled, CleanerAction, CleanerTick, MemoryCleaner, ServerCounters, Statistics};
use tray_node::server::{drop_privilege_target, socket_path_action, start_plan, SocketAction, SocketPlace, UserEntry};
use tray_node::theme::{RequirementType, Templates};
use tray_node::theme_files::{template_size_limit, TemplateRequirements};
use tray_node::themes::{DefaultTemplateRequirementsRule, Themes};

#[test]
fn event_channels() {
    let mut m = EventManager::new(1, 100000);
    assert_eq!(m.capacity, 8);
    assert_eq!(m.default_capacity, 8192);
    let d = EventManager::default();
    assert_eq!((d.capacity, d.default_capacity), (2048, 128));
    assert_eq!(Channel::new(7, 3).capacity(), 8);
    for k in 0..8u64 {
        m.subscribe(k).unwrap();
    }
    assert!(m.has(3));
    assert_eq!(m.emit(3), Ok(1));
    assert_eq!(m.emit(99), Ok(0));
    let e = m.subscribe(8).unwrap_err();
    assert_eq!(e.error_type, ErrorType::Other);
    assert_eq!(
        e.message,
        "Channel capacity reached: 8. Consider increasing the capacity or removing unused channels."
    );
    m.set_receiver_count(2, 0);
    assert_eq!(m.emit(2), Err(()));
    m.subscribe_with_capacity(8, 16).unwrap();
    assert!(!m.has(2));
    assert!(m.has(8));
    assert_eq!(m.channels.iter().find(|c| c.type_key == 8).unwrap().capacity, 16);
    // every place is taken by a listened channel: even a channel that exists refuses
    assert!(m.subscribe(1).is_err());
    assert_eq!(m.emit(1), Ok(1));
    m.set_receiver_count(4, 0);
    m.set_receiver_count(5, 0);
    assert_eq!(m.recycle(), vec![4, 5]);
    assert_eq!(m.channels_names(), vec![0, 1, 3, 6, 7, 8]);
    assert_eq!(m.remove(6).map(|c| c.type_key), Some(6));
    assert_eq!(m.remove(6), None);
    assert!(m.begin_auto_recycle());
    assert!(!m.begin_auto_recycle());
    for k in [0u64, 1, 3, 7, 8] {
        m.set_receiver_count(k, 0);
    }
    assert!(!m.auto_recycle_tick());
    assert!(!m.task_running);
}

#[test]
fn hook_registry() {
    let mut h = Hooks::new();
    h.add("render".to_string(), 1, 10, 0, false);
    h.add("render".to_string(), 2, 10, 5, true);
    h.add("render".to_string(), 3, 20, 9, false);
    h.add_default("render".to_string(), 4, 10);
    h.add_once("render".to_string(), 5, 10, 5);
    let order: Vec<u128> = h.apply_order("render", 10).iter().map(|i| i.id()).collect();
    assert_eq!(order.len(), 4);
    assert!(order[0] == 2 || order[0] == 5);
    assert!(order[1] == 2 || order[1] == 5);
    assert!(order[2] == 1 || order[2] == 4);
    assert!(order[3] == 1 || order[3] == 4);
    assert!(h.apply_order("other", 10).is_empty());
    h.add("render".to_string(), 1, 10, 7, false);
    let order: Vec<u128> = h.apply_order("render", 10).iter().map(|i| i.id()).collect();
    assert_eq!(order[0], 1);
    h.start_apply("render");
    assert!(!h.in_hook("render", None));
    h.enter("render", 2);
    assert!(h.in_hook("render", Some(2)));
    assert!(h.in_hook("render", None));
    assert!(!h.in_hook("render", Some(1)));
    h.leave("render", 2, true, true);
    assert!(!h.in_hook("render", Some(2)));
    h.finish_apply("render");
    assert!(!h.in_hook("render", None));
    let left: Vec<u128> = h.apply_order("render", 10).iter().map(|i| i.id()).collect();
    assert_eq!(left.len(), 3);
    assert!(!left.contains(&2));
    let gone = h.remove("render", Some(5), None);
    assert_eq!(gone.iter().map(|i| i.id()).collect::<Vec<_>>(), vec![5]);
    h.remove_by_id("render", 3);
    assert!(h.apply_order("render", 20).is_empty());
    let item = HookItem::new(9, 1, -1, true);
    assert_eq!((item.id(), item.type_id(), item.priority(), item.once()), (9, 1, -1, true));
}

#[test]
fn command_loop() {
    assert!(closes_socket_on(ErrorType::ConnectionRefused));
    assert!(closes_socket_on(ErrorType::NotConnected));
    assert!(!closes_socket_on(ErrorType::TimedOut));
    let s = loop_start();
    let (s, a) = loop_step(s, true, false);
    assert_eq!(a, LoopAction::Spawn);
    let (s, a) = loop_step(s, true, false);
    assert_eq!(a, LoopAction::Sleep);
    assert!(s.stop);
    let (s, a) = loop_step(s, true, false);
    assert_eq!(a, LoopAction::Check);
    let (_, a) = loop_step(s, true, false);
    assert_eq!(a, LoopAction::Finish);
    let (s, a) = loop_step(LoopState { stop: false, waiting: true }, true, true);
    assert_eq!(a, LoopAction::Check);
    assert_eq!(loop_step(s, true, false).1, LoopAction::Spawn);
    assert_eq!(loop_step(s, false, false).1, LoopAction::Finish);
}

#[test]
fn download_file_claims() {
    let rt = Runtime::new(
        RuntimeEnv {
            exe_file: "/opt/app/bin/tray".to_string(),
            exe_dir: "/opt/app/bin".to_string(),
            cwd: "/".to_string(),
            root_dir_var: Some("/srv".to_string()),
            themes_dir_var: None,
            config_file_var: None,
            no_limit_var: None,
            invocation_id_set: false,
            journal_stream_set: false,
            pid: 1,
            uid: 0,
            initial_root: true,
            is_root: true,
            is_cargo: false,
        },
        BuildInfo {
            name: "tray-node".to_string(),
            version: "1".to_string(),
            description: "".to_string(),
            author: "".to_string(),
            build_timestamp: "".to_string(),
            build_timestamp_date: "".to_string(),
        },
    );
    let mut f = DownloadFileSaver::from_uuid("0190a1b2-c3d4-7e5f-8a9b-0c1d2e3f4a5b", &rt, 2024, 7, 9);
    assert_eq!(f.get_file_name(), "0190a1b2-c3d4-7e5f-8a9b-0c1d2e3f4a5b.file");
    assert_eq!(f.get_path(), "/srv/var/cache/downloads/2024/7/9/0190a1b2-c3d4-7e5f-8a9b-0c1d2e3f4a5b.file");
    assert!(!f.is_claiming());
    f.begin_claim().unwrap();
    assert!(f.is_claiming());
    let e = f.begin_claim().unwrap_err();
    assert_eq!(e.error_type, ErrorType::DeadLock);
    assert_eq!(e.message, "File is already being claimed by another process or thread");
    f.end_claim();
    assert!(!f.is_claiming());
}

#[test]
fn archive_entries() {
    assert_eq!(Zip::extract_action("a/b/", true), ArchiveEntry::Directory);
    assert_eq!(Zip::extract_action("a/b.txt", true), ArchiveEntry::File);
    assert_eq!(Zip::extract_action("../evil", false), ArchiveEntry::Skip);
    assert_eq!(Zip::archive_action(true, "x.txt"), ArchiveEntry::File);
    assert_eq!(Zip::archive_action(false, "sub"), ArchiveEntry::Directory);
    assert_eq!(Zip::archive_action(false, ""), ArchiveEntry::Skip);
}

#[test]
fn errors_from_sources() {
    let e = Error::from_error(ErrorSource::Io("NotFound".to_string(), "gone".to_string()));
    assert_eq!((e.error_type, e.message.as_str()), (ErrorType::NotFound, "gone"));
    let e = Error::from_error(ErrorSource::Utf8("bad utf-8".to_string()));
    assert_eq!(e.error_type, ErrorType::Encoding);
    let e = Error::from_error(ErrorSource::Http(404, "NotFound".to_string()));
    assert_eq!(e.error_type, ErrorType::from_http_status(404));
    let e = Error::from_error(ErrorSource::ParseInt("invalid digit found in string".to_string()));
    assert_eq!(e.error_type, ErrorType::Parse);
    let inner = Error::new(ErrorType::Expired, "old");
    let e = Error::from_error(ErrorSource::Library(inner));
    assert_eq!((e.error_type, e.message.as_str()), (ErrorType::Expired, "old"));
    let e = Error::from_error(ErrorSource::Other("boom".to_string()));
    assert_eq!(e.error_type, ErrorType::Other);
    let e = Error::from_acme_error(AcmeFailure::KeyRejected("no".to_string()));
    assert_eq!(e.error_type, ErrorType::PermissionDenied);
    let e = Error::from_acme_error(AcmeFailure::Timeout("slow".to_string()));
    assert_eq!((e.error_type, e.message.as_str()), (ErrorType::TimedOut, "slow"));
    let e = Error::from_acme_error(AcmeFailure::InvalidUri("u".to_string()));
    assert_eq!(e.error_type, ErrorType::HostUnreachable);
    let e: Error = Error::from("plain".to_string());
    assert_eq!((e.error_type, e.message.as_str()), (ErrorType::Other, "plain"));
}

#[test]
fn command_registry() {
    let mut cli: Cli<u32> = Cli::new(vec![]);
    cli.add_command("serve".to_string(), 1).unwrap();
    let e = cli.add_command("serve".to_string(), 2).unwrap_err();
    assert_eq!((e.error_type, e.message.as_str()), (ErrorType::AlreadyExists, "Command already exists."));
    assert!(cli.has_command("serve"));
    assert_eq!(*cli.get_command("serve").unwrap(), 1);
    let e = cli.get_command("stop").unwrap_err();
    assert_eq!((e.error_type, e.message.as_str()), (ErrorType::NotFound, "Command stop not found."));
    assert!(cli.effective_args().is_empty());
    cli.set_empty_arg(vec!["--help".to_string()]);
    assert_eq!(cli.effective_args(), &vec!["--help".to_string()]);
    assert!(cli.remove_command("serve"));
    assert!(!cli.remove_command("serve"));
    let cli2: Cli<u32> = Cli::new(vec!["serve".to_string()]);
    assert_eq!(cli2.effective_args(), &vec!["serve".to_string()]);
    assert_eq!(Cli::cmdline_area(1000, &vec![(1010, 5), (1020, 8), (1005, 2)]), 28);
    assert_eq!(Cli::cmdline_copy_len(40, 28), 27);
    assert_eq!(Cli::cmdline_copy_len(4, 28), 4);
    assert_eq!(AclRule::<()>::text(&AclRule::OwnerOnly), "OwnerOnly");
}

#[test]
fn upload_data() {
    let mut d = MultipartData::new();
    d.insert_field("name".to_string(), "a".to_string());
    d.insert_field("name".to_string(), "b".to_string());
    d.insert_field("age".to_string(), "3".to_string());
    assert_eq!(d.fields, vec![("name".to_string(), "b".to_string()), ("age".to_string(), "3".to_string())]);
    let f = SavedFile {
        name: "x.png".to_string(),
        path: "/tmp/up/x".to_string(),
        size: 3,
        content_type: Some("image/png".to_string()),
        moved_path: None,
        moved: false,
    };
    d.insert_file("avatar".to_string(), f);
    assert_eq!(d.files.len(), 1);
    assert_eq!(d.files[0].1.size, 3);
}

#[test]
fn certificate_names_and_sizes() {
    let mut san: Vec<u8> = vec![0x82, 3, b'a', b'.', b'b', 0x87, 4, 10, 0, 0, 1, 0x87, 16];
    san.extend_from_slice(&[0u8; 15]);
    san.push(1);
    san.extend_from_slice(&[0x30, 0, 0x87, 2, 1, 2]);
    assert!(sans_readable(&san));
    assert_eq!(list_sans(Some("Example.COM"), &san), vec!["example.com", "a.b", "10.0.0.1", "::1"]);
    assert_eq!(list_sans(Some("A.B"), &[0x82, 3, b'a', b'.', b'b']), vec!["a.b", "a.b"]);
    assert_eq!(list_sans(Some("a.b"), &[0x82, 3, b'a', b'.', b'b']), vec!["a.b"]);
    assert!(!sans_readable(&[0x82]));
    assert!(!sans_readable(&[0x82, 1, b'x', 0x87]));
    assert!(sans_readable(&[0x82, 5, 1]));
    assert!(list_sans(None, &[0x82, 5, 1]).is_empty());
    let e = check_certificate_size(100).unwrap_err();
    assert_eq!((e.error_type, e.message.as_str()), (ErrorType::InvalidData, "Certificate file is too small"));
    let e = check_certificate_size(60000).unwrap_err();
    assert_eq!(e.message, "Certificate file is too large");
    assert!(check_certificate_size(1000).is_ok());
    let e = check_key_size(100).unwrap_err();
    assert_eq!(e.message, "Key file is too small");
    let e = check_key_size(20000).unwrap_err();
    assert_eq!(e.message, "Key file is too large");
    assert!(check_key_size(5000).is_ok());
}

#[test]
fn server_start_decisions() {
    let mut ssl = SSLConfig::default();
    ssl.listen = vec!["0.0.0.0:443".to_string()];
    ssl.key = "k.pem".to_string();
    let mut app = AppConfig {
        socket: "/dev/shm/x.sock".to_string(),
        session_name: "vault".to_string(),
        csrf_durations: 30,
        user: "".to_string(),
        datagram: "d".to_string(),
        tcp: vec!["127.0.0.1:80".to_string()],
        ssl,
        workers: 0,
        mode: "production".to_string(),
        dashboard_path: "dashboard".to_string(),
        operation_timeout: 10,
        request_timeout: 10,
        disconnect_timeout: 10,
        secret_key: "".to_string(),
        salt_key: "".to_string(),
        max_connections: 128,
        max_connections_rate: 32,
        backlog: 128,
        rlimit_nofile: 4096,
        keep_alive: 0,
        auto_clean_memory: false,
        auto_clean_memory_size: "0".to_string(),
        auto_clean_memory_interval: "60".to_string(),
    };
    let p = start_plan(false, false, &app).unwrap();
    assert_eq!(p.binding, vec!["127.0.0.1:80".to_string()]);
    assert!(p.ssl_binding.is_empty());
    assert_eq!(p.workers, None);
    app.ssl.cert = "c.pem".to_string();
    app.workers = 3;
    let p = start_plan(false, false, &app).unwrap();
    assert_eq!(p.ssl_binding, vec!["0.0.0.0:443".to_string()]);
    assert_eq!(p.workers, Some(3));
    let e = start_plan(true, true, &app).unwrap_err();
    assert_eq!((e.error_type, e.message.as_str()), (ErrorType::InProgress, "Server is already processing start"));
    let e = start_plan(false, true, &app).unwrap_err();
    assert_eq!((e.error_type, e.message.as_str()), (ErrorType::AddressInUse, "Actix Server is already running"));

    assert_eq!(socket_path_action("/s", SocketPlace::Missing).unwrap(), SocketAction::Bind);
    assert_eq!(socket_path_action("/s", SocketPlace::Socket(false)).unwrap(), SocketAction::RemoveThenBind);
    assert_eq!(socket_path_action("/s", SocketPlace::File(0)).unwrap(), SocketAction::RemoveThenBind);
    let e = socket_path_action("/s", SocketPlace::Socket(true)).unwrap_err();
    assert_eq!(e.message, "Socket /s is already in use");
    let e = socket_path_action("/s", SocketPlace::File(3)).unwrap_err();
    assert_eq!((e.error_type, e.message.as_str()), (ErrorType::AlreadyExists, "File /s already exists and is not a socket"));
    let e = socket_path_action("/s", SocketPlace::Other).unwrap_err();
    assert_eq!((e.error_type, e.message.as_str()), (ErrorType::Unsupported, "Path /s already exists and is not a socket"));

    assert_eq!(drop_privilege_target(false, "www", Ok(None)).unwrap(), None);
    let u = UserEntry { name: "www".to_string(), uid: 33, gid: 34 };
    assert_eq!(drop_privilege_target(true, "www", Ok(Some(u))).unwrap(), Some((34, 33)));
    let e = drop_privilege_target(true, "ghost", Ok(None)).unwrap_err();
    assert_eq!(e.message, "User 'ghost' not found on the system.");
    let e = drop_privilege_target(true, "x", Err("EIO".to_string())).unwrap_err();
    assert_eq!(e.message, "Failed to retrieve user information for 'x': EIO");
    let root = UserEntry { name: "root".to_string(), uid: 0, gid: 0 };
    let e = drop_privilege_target(true, "root", Ok(Some(root))).unwrap_err();
    assert_eq!((e.error_type, e.message.as_str()), (ErrorType::InvalidData, "User 'root' cannot be root."));
}

#[test]
fn theme_file_rules() {
    assert_eq!(template_size_limit(None), 524288);
    assert_eq!(template_size_limit(Some(10)), 1024);
    assert_eq!(template_size_limit(Some(10_000_000)), 5242880);
    assert_eq!(template_size_limit(Some(4096)), 4096);
    let t = Templates::new();
    let req = vec!["layout".to_string(), "error".to_string(), "404".to_string()];
    assert!(TemplateRequirements::validate_paths(&t, &req[..2].to_vec(), &vec![true, true], "\"/t\"").is_ok());
    let e = TemplateRequirements::validate_paths(&t, &req[..2].to_vec(), &vec![true, false], "\"/t\"").unwrap_err();
    assert_eq!((e.error_type, e.message.as_str()), (ErrorType::FileNotFound, "Template file for error (error.hbs) not found in \"/t\""));
    let e = TemplateRequirements::validate_paths(&t, &req, &vec![true, true, true], "\"/t\"").unwrap_err();
    assert_eq!((e.error_type, e.message.as_str()), (ErrorType::InvalidInput, "Template name '404' is required but not found in configuration."));
    let e = TemplateRequirements::validate_embed(&t, &req[..1].to_vec(), &vec![false]).unwrap_err();
    assert_eq!(e.message, "Template file for layout (layout.hbs) not found in embedded assets.");
    let exts = vec!["hbs".to_string()];
    assert_eq!(
        TemplateRequirements::file_entry("/t/a\\b.hbs", "a\\b.hbs", 10, 100, Some("hbs"), &exts).unwrap(),
        Some(("a/b.".to_string(), "/t/a/b.hbs".to_string()))
    );
    assert_eq!(TemplateRequirements::file_entry("/t/a.css", "a.css", 10, 100, Some("css"), &exts).unwrap(), None);
    assert_eq!(TemplateRequirements::file_entry("/t/a", "a", 10, 100, None, &exts).unwrap(), None);
    assert_eq!(
        TemplateRequirements::file_entry("/t/x.png", "x.png", 10, 100, Some("png"), &vec![]).unwrap(),
        Some(("x.png".to_string(), "/t/x.png".to_string()))
    );
    let e = TemplateRequirements::file_entry("/t/big.hbs", "big.hbs", 200, 100, Some("hbs"), &exts).unwrap_err();
    assert_eq!(
        (e.error_type, e.message.as_str()),
        (ErrorType::Overflow, "Template file '/t/big.hbs' is too large try maximum is: 100 and current file size is: 200")
    );
    let r = TemplateRequirements {
        requirement_type: RequirementType::FileSystem,
        slug: "basic".to_string(),
        theme_dir: Some("/t".to_string()),
        required: req.clone(),
        asset_path: "/assets".to_string(),
        partial_path: "/partials".to_string(),
        language_path: "/en".to_string(),
        partial_file_map: vec![],
        template_file_map: vec![],
        asset_file_map: vec![],
        language_file_map: vec![],
        templates: Templates::new(),
    };
    let (ok, missing) = r.required_templates_satisfied_with(&vec!["404".to_string(), "home".to_string(), "layout".to_string()]);
    assert_eq!(ok, vec!["404".to_string(), "layout".to_string()]);
    assert_eq!(missing, vec!["home".to_string()]);
    assert_eq!(r.slug(), "basic");
    assert_eq!(r.requirement_type(), RequirementType::FileSystem);
}

#[test]
fn theme_registry() {
    let mut t: Themes<u32> = Themes::from_default("basic".to_string(), 1);
    assert_eq!(t.default(), Some(&1));
    assert!(!t.add("dark".to_string(), 2));
    assert!(t.add("dark".to_string(), 3));
    assert_eq!(t.get("dark"), Some(&3));
    assert!(t.has("basic"));
    assert_eq!(t.remove("basic"), None);
    assert!(t.has("basic"));
    assert!(t.set_default_theme_by_slug("dark"));
    assert!(!t.set_default_theme_by_slug("light"));
    assert_eq!(t.default(), Some(&3));
    assert_eq!(t.remove("basic"), Some(1));
    assert_eq!(t.remove("basic"), None);
    let e = t.theme_to_render("basic").unwrap_err();
    assert_eq!((e.error_type, e.message.as_str()), (ErrorType::InvalidInput, "Theme basic not found."));
    assert_eq!(*t.theme_to_render("dark").unwrap(), 3);
    let rule = DefaultTemplateRequirementsRule::new();
    let mut req = TemplateRequirements {
        requirement_type: RequirementType::Embed,
        slug: "s".to_string(),
        theme_dir: None,
        required: vec!["layout".to_string(), "error".to_string()],
        asset_path: "/assets".to_string(),
        partial_path: "/partials".to_string(),
        language_path: "/en".to_string(),
        partial_file_map: vec![],
        template_file_map: vec![],
        asset_file_map: vec![],
        language_file_map: vec![],
        templates: Templates::new(),
    };
    assert!(!rule.satisfy_requirements(&req));
    let e = rule.satisfied(&req).unwrap_err();
    assert_eq!(e.message, "Template requirements not satisfied.");
    req.required.push("404".to_string());
    assert!(rule.satisfied(&req).is_ok());
    let own = DefaultTemplateRequirementsRule::from_template_requirements(&req);
    assert_eq!(own.get_required_template_requirements(), req.required);
}

#[test]
fn middleware_pipeline() {
    let mut m = MiddlewareManager::default();
    assert_eq!(m.len(), 0);
    m.register(1, 0);
    m.register(2, 5);
    m.register(3, 0);
    m.register(4, -2);
    // a type that is registered keeps its place and priority
    m.register(2, 9);
    assert_eq!(m.len(), 4);
    assert!(m.has(2));
    assert!(!m.has(7));
    let e = |k: u64, p: isize| MiddlewareEntry { type_key: k, priority: p };
    assert_eq!(m.entries().clone(), vec![e(1, 0), e(2, 5), e(3, 0), e(4, -2)]);
    // descending priority, equal priorities in registration order
    let order = m.create_dispatcher().order();
    assert_eq!(order, vec![e(2, 5), e(1, 0), e(3, 0), e(4, -2)]);
    assert_eq!(Dispatcher::step(&order, 0), DispatchStep::Middleware(e(2, 5)));
    assert_eq!(Dispatcher::step(&order, 3), DispatchStep::Middleware(e(4, -2)));
    assert_eq!(Dispatcher::step(&order, 4), DispatchStep::Inner);
    m.remove(1);
    m.remove(9);
    assert!(!m.has(1));
    assert_eq!(m.entries().clone(), vec![e(2, 5), e(3, 0), e(4, -2)]);
    assert_eq!(Dispatcher::new(vec![e(5, 1), e(6, 3)]).order(), vec![e(6, 3), e(5, 1)]);
    m.clear();
    assert_eq!(m.len(), 0);
    assert_eq!(Dispatcher::new(Vec::new()).order(), Vec::new());
}

#[test]
fn server_counters() {
    let mut c = ServerCounters::new(4);
    assert_eq!(c.next_auto_clean, -1);
    assert_eq!(c.uptime(100), 0);
    assert_eq!(c.get_total_worker(None), 4);
    assert_eq!(c.get_total_worker(Some(2)), 2);
    assert_eq!(c.started(1000), 1);
    assert!(c.running);
    assert_eq!(c.uptime(1060), 60);
    c.request_started(false);
    c.request_started(true);
    assert_eq!(c.get_stats(), (2, 2));
    assert_eq!((c.websocket_requests, c.websocket_alive), (1, 1));
    c.request_finished(false);
    assert_eq!(c.get_stats(), (2, 1));
    c.request_finished(true);
    assert_eq!((c.current_connections, c.websocket_alive), (0, 0));
    c.request_started(false);
    c.stopped();
    assert!(!c.running);
    assert_eq!(c.get_stats(), (0, 0));
    assert_eq!(c.global_requests, 3);
    // a request still in flight when the counts were zeroed wraps the counter
    c.request_finished(false);
    assert_eq!(c.current_connections, usize::MAX);
    assert_eq!(c.started(2000), 2);
}

#[test]
fn memory_cleaner_schedule() {
    assert!(auto_clean_enabled(true, 60, 1024, 4096));
    assert!(!auto_clean_enabled(true, 0, 1024, 4096));
    assert!(!auto_clean_enabled(true, 60, 4096, 4096));
    assert!(!auto_clean_enabled(false, 60, 1024, 4096));
    let (mut m, next) = MemoryCleaner::start(2, 500);
    assert_eq!(next, 2);
    assert_eq!(m.counter_data, 20);
    let mut seen = Vec::new();
    for _ in 0..19 {
        let (t, n) = m.tick(true, true);
        assert_eq!(t, CleanerTick::Wait);
        seen.push(n);
    }
    assert_eq!(seen[0], 1);
    assert_eq!(seen[10], 0);
    assert_eq!(m.tick(true, true), (CleanerTick::Due, 0));
    assert_eq!(m.due(100), (CleanerAction::Skip, 2));
    assert_eq!(m.seconds_counter, 0);
    for _ in 0..19 {
        m.tick(true, true);
    }
    assert_eq!(m.tick(true, true).0, CleanerTick::Due);
    assert_eq!(m.due(500), (CleanerAction::Clean, 2));
    assert_eq!(m.tick(false, true), (CleanerTick::Stop, 0));
    assert_eq!(m.tick(true, false), (CleanerTick::Stop, 0));
    assert_eq!(m.seconds_counter, 0);
}

#[test]
fn factory_registry() {
    let mut f = Factory::new(vec!["app::Server".to_string(), "app::Hooks".to_string()]);
    assert!(f.protected("app::Server"));
    assert!(!f.protected("app::Config"));
    assert!(!f.registered("app::Config"));
    // an unknown type that was never registered is an error
    let e = f.get("app::Config", 9).unwrap_err();
    assert_eq!(e.error_type, ErrorType::Other);
    assert_eq!(e.message, "Factory find failed: Not found instance for: \"app::Config\"");
    assert!(!f.registered("app::Config"));
    // a protected type gets its default instance on demand
    assert_eq!(f.get("app::Server", 7).ok(), Some(7));
    assert!(f.registered("app::Server"));
    // and it is neither replaced nor removed
    assert_eq!(f.insert("app::Server", 8), 7);
    let e = f.remove("app::Server").unwrap_err();
    assert_eq!(e.error_type, ErrorType::PermissionDenied);
    assert_eq!(e.message, "Cannot remove protected instance: \"app::Server\"");
    assert_eq!(f.get("app::Server", 1).ok(), Some(7));
    // other types are replaced and removed
    assert_eq!(f.insert("app::Config", 3), 3);
    assert_eq!(f.insert("app::Config", 4), 4);
    assert_eq!(f.get_or_insert("app::Config", 5), 4);
    assert_eq!(f.remove("app::Config").ok(), Some(Some(4)));
    assert_eq!(f.remove("app::Config").ok(), Some(None));
    assert_eq!(f.get_or_set("app::Config", 6), 6);
    assert!(f.contains("app::Config", 6, 0));
    assert!(!f.contains("app::Other", 6, 0));
    assert!(f.contains("app::Hooks", 2, 2));
    assert!(f.registered("app::Hooks"));
}

#[test]
fn certificate_resolution() {
    assert_eq!(wildcard_name("example.com", Some("a.b")), "*.b.example.com");
    assert_eq!(wildcard_name("example.com", Some("b")), "*.example.com");
    assert_eq!(wildcard_name("example.com", None), "*.example.com");
    assert_eq!(wildcard_candidate(None, Some("xn--e1a.local"), "raw"), "xn--e1a.local");
    assert_eq!(wildcard_candidate(None, None, "raw"), "raw");
    assert_eq!(wildcard_candidate(Some(("example.com", Some("x.y.z"))), None, "raw"), "*.y.z.example.com");
    assert_eq!(domain_store_key("  Example.COM ", None), Some("example.com".to_string()));
    assert_eq!(domain_store_key(" 127.0.0.1", None), Some("127.0.0.1".to_string()));
    assert_eq!(domain_store_key("0:0:0:0:0:0:0:1", None), Some("::1".to_string()));
    assert_eq!(domain_store_key("   ", None), None);
    assert_eq!(domain_store_key("Bücher.de", Some("XN--BCHER-KVA.DE")), Some("xn--bcher-kva.de".to_string()));

    let mut s = CertStore::new(true);
    assert_eq!(s.resolve("a.example.com", "a.example.com", "*.example.com"), Resolution::Generate);
    s.insert_default("*.example.com", 1);
    assert_eq!(s.resolve("A.Example.com", "a.example.com", "*.example.com"), Resolution::Found(1));
    s.insert_default("a.example.com", 2);
    assert_eq!(s.resolve("a.example.com", "a.example.com", "*.example.com"), Resolution::Found(2));
    // a certificate added by hand comes first
    s.add("A.Example.com", 3);
    assert_eq!(s.lookup(&"a.example.com".chars().collect::<Vec<char>>()), Some(3));
    assert_eq!(s.resolve("a.example.com", "a.example.com", "*.example.com"), Resolution::Found(3));
    s.remove_predefined("A.EXAMPLE.COM");
    assert_eq!(s.resolve("a.example.com", "a.example.com", "*.example.com"), Resolution::Found(2));
    // the ASCII form is looked up where it differs
    s.insert_default("xn--bcher-kva.de", 4);
    assert_eq!(s.resolve("bücher.de", "xn--bcher-kva.de", "*.de"), Resolution::Found(4));
    s.store_generated("*.other.org", 5);
    assert_eq!(s.resolve("www.other.org", "www.other.org", "*.other.org"), Resolution::Found(5));
    let off = CertStore::new(false);
    assert_eq!(off.resolve("x.org", "x.org", "*.org"), Resolution::NoCertificate);
}

#[test]
fn generated_certificates_are_bounded() {
    let mut s = CertStore::new(true);
    for i in 0..8192u64 {
        s.store_generated(&format!("*.h{}.org", i), i);
    }
    assert_eq!(s.resolve("a.h0.org", "a.h0.org", "*.h0.org"), Resolution::Found(0));
    s.store_generated("*.new.org", 9000);
    // the hundred kept longest made room
    assert_eq!(s.resolve("a.h0.org", "a.h0.org", "*.h0.org"), Resolution::Generate);
    assert_eq!(s.resolve("a.h99.org", "a.h99.org", "*.h99.org"), Resolution::Generate);
    assert_eq!(s.resolve("a.h100.org", "a.h100.org", "*.h100.org"), Resolution::Found(100));
    assert_eq!(s.resolve("a.new.org", "a.new.org", "*.new.org"), Resolution::Found(9000));
}

#[test]
fn configured_certificates() {
    assert!(files_given("key.pem", "cert.pem"));
    assert!(!files_given("  ", "cert.pem"));
    assert!(!files_given("key.pem", ""));
    let mut s = CertStore::new(false);
    s.insert_configured(Some("example.com"), &vec!["www.example.com".to_string(), "*.example.com".to_string()], 7);
    assert_eq!(s.resolve("example.com", "example.com", "*.com"), Resolution::Found(7));
    assert_eq!(s.resolve("www.example.com", "www.example.com", "*.example.com"), Resolution::Found(7));
    assert_eq!(s.resolve("api.example.com", "api.example.com", "*.example.com"), Resolution::Found(7));
    s.insert_configured(None, &vec!["www.example.com".to_string()], 8);
    assert_eq!(s.resolve("www.example.com", "www.example.com", "*.example.com"), Resolution::Found(8));
    assert_eq!(s.resolve("example.com", "example.com", "*.com"), Resolution::Found(7));
}

#[test]
fn dns_services() {
    assert_eq!(Dns::default_service(), Dns::GoogleDoh);
    let s = Dns::Quad9Dns.settings();
    assert_eq!((s.provider, s.https, s.ipv4_only, s.timeout_secs), (DnsProvider::Quad9, false, true, 5));
    let c = Dns::CloudflareDoh.settings();
    assert_eq!((c.provider, c.https), (DnsProvider::Cloudflare, true));
    assert_eq!(Dns::GoogleDns.settings().provider, DnsProvider::Google);
}

#[test]
fn statistics_from_counters() {
    let mut c = ServerCounters::new(2);
    c.request_started(true);
    c.request_started(false);
    c.request_finished(false);
    let s = Statistics::from_counters(&c);
    assert_eq!(
        (s.total_request, s.total_global_request, s.active_connections, s.websocket_request, s.active_websocket_connections),
        (2, 2, 1, 1, 1)
    );
}
