use tray_node::error::ErrorType;
use tray_node::lz4::Lz4;
use tray_node::mounts::{Devices, LabeledDevices, Mounts};
use tray_node::multipart::{DayBased, DirEntry, MonthBased, Multipart, SavedFile, ScanDirVisitor, YearBased};
use tray_node::stats::Stats;
use tray_node::theme::{normalize_directories, Directories, Templates};
use tray_node::theme_uri::ThemeUri;

#[test]
fn lz4_round_trip() {
    let data: Vec<u8> = (0..5000u32).map(|i| (i % 251) as u8).collect();
    let packed = Lz4::compress(&data).unwrap();
    assert_ne!(packed, data);
    assert_eq!(&packed[0..4], &[0x04, 0x22, 0x4d, 0x18]);
    let unpacked = Lz4::decompress(&packed).unwrap();
    assert_eq!(unpacked, data);
    let empty = Lz4::compress(&[]).unwrap();
    assert_eq!(Lz4::decompress(&empty).unwrap(), Vec::<u8>::new());
}

#[test]
fn lz4_rejects_garbage() {
    let e = Lz4::decompress(b"not an lz4 frame").unwrap_err();
    assert_ne!(e.error_type, ErrorType::Parse);
}

#[test]
fn theme_base_urls() {
    assert_eq!(ThemeUri::new("").base_url(), "");
    assert_eq!(ThemeUri::new("/").base_url(), "");
    assert_eq!(ThemeUri::new("blog/").base_url(), "/blog");
    assert_eq!(ThemeUri::new("/blog?x=1#y").base_url(), "/blog");
    assert_eq!(ThemeUri::new("https://Example.com/site/").base_url(), "https://Example.com/site");
    assert_eq!(ThemeUri::new("HTTP://a.b").base_url(), "HTTP://a.b");
    let mut u = ThemeUri::new("x");
    u.set_base_url("//cdn/");
    assert_eq!(u.base_url(), "//cdn");
}

#[test]
fn theme_asset_urls() {
    let u = ThemeUri::new("/blog/");
    assert_eq!(u.assets_url("css/site.css"), "/blog/theme/assets/css/site.css");
    assert_eq!(u.assets_url("///img.png"), "/blog/theme/assets/img.png");
    assert_eq!(u.assets_url("?v=1"), "/blog/theme/assets/?v=1");
    assert_eq!(u.assets_url(""), "/blog/theme/assets/");
    assert_eq!(u.assets_url("/"), "/blog/theme/assets/");
    let h = ThemeUri::new("https://example.com");
    assert_eq!(h.assets_url("a.js"), "https://example.com/theme/assets/a.js");
    assert_eq!(h.assets_url("images/logo.png"), "https://example.com/theme/assets/images/logo.png");
    let root = ThemeUri::new("");
    assert_eq!(root.assets_url("a.js"), "/theme/assets/a.js");
    assert_eq!(root.assets_url("css/app.css"), "/theme/assets/css/app.css");
}

#[test]
fn theme_directories() {
    let d = Directories::default();
    assert_eq!((d.language.as_str(), d.assets.as_str(), d.partials.as_str()), ("en", "assets", "partials"));
    let n = normalize_directories(&Directories {
        language: "\\lang\\".to_string(),
        assets: "//static//".to_string(),
        partials: "".to_string(),
    });
    assert_eq!(n.language, "/lang");
    assert_eq!(n.assets, "/static");
    assert_eq!(n.partials, "/");
}

#[test]
fn theme_templates() {
    let mut t = Templates::new();
    assert_eq!(t.get("layout"), Some("layout"));
    assert_eq!(t.get("not_found"), Some("404"));
    assert_eq!(t.get("sidebar"), None);
    t.insert_extra("sidebar", "side.hbs");
    t.insert_extra("footer", "foot");
    t.insert_extra("sidebar", "side2.hbs");
    assert_eq!(t.get("sidebar"), Some("side2.hbs"));
    t.layout = "main.hbs".to_string();
    t.clean_extensions();
    assert_eq!(t.layout, "main");
    assert_eq!(t.error, "error");
    assert_eq!(t.get("sidebar"), Some("side2"));
    assert_eq!(t.get("footer"), Some("foot"));
    let all = t.all();
    let map: std::collections::HashMap<String, String> = all.into_iter().collect();
    assert_eq!(map.len(), 5);
    assert_eq!(map["not_found"], "404");
    assert_eq!(map["footer"], "foot");
}

#[test]
fn upload_paths() {
    let m = Multipart::new("/tmp/up");
    assert_eq!(m.temp_dir(), "/tmp/up");
    assert_eq!(Multipart::generate_folder_name(2024, 3, 9), "2024/3/9");
    let (dir, file) = m.generate_file_path(2024, 3, 9, "abc");
    assert_eq!(dir, "/tmp/up/2024/3/9");
    assert_eq!(file, "/tmp/up/2024/3/9/abc");
}

#[test]
fn moving_saved_files() {
    assert!(SavedFile::check_move("/x", false, false, false).is_ok());
    let e = SavedFile::check_move("/x", true, false, false).unwrap_err();
    assert_eq!(e.error_type, ErrorType::FileExists);
    assert_eq!(e.message, "File already exists: /x");
    let e = SavedFile::check_move("/d", true, true, true).unwrap_err();
    assert_eq!(e.error_type, ErrorType::IsADirectory);
    assert_eq!(e.message, "Destination is a directory: /d");
    assert!(SavedFile::check_move("/x", true, false, true).is_ok());
    let mut f = SavedFile {
        name: "a.txt".to_string(),
        path: "/tmp/a".to_string(),
        size: 3,
        content_type: None,
        moved_path: None,
        moved: false,
    };
    f.mark_moved("/srv/a.txt");
    assert!(f.moved);
    assert_eq!(f.moved_path.as_deref(), Some("/srv/a.txt"));
}

fn entry(name: &str, children: Vec<DirEntry>) -> DirEntry {
    DirEntry { name: name.to_string(), path: format!("/up/{}", name), children }
}

#[test]
fn scanning_dated_directories() {
    let tree = vec![
        entry("2023", vec![entry("12", vec![entry("31", vec![]), entry("tmp", vec![])]), entry("x", vec![])]),
        entry("2024", vec![entry("1", vec![entry("2", vec![]), entry("20", vec![])])]),
        entry("junk", vec![]),
    ];
    let v: ScanDirVisitor = Multipart::scan_entries(&tree);
    assert_eq!(v.years.len(), 2);
    assert_eq!(v.global_invalid, vec!["/up/junk".to_string()]);
    let y: &YearBased = &v.years[0];
    assert_eq!(y.year, 2023);
    assert_eq!(y.invalid, vec!["/up/x".to_string()]);
    let m: &MonthBased = &y.months[0];
    assert_eq!(m.month, 12);
    assert_eq!(m.days.len(), 1);
    assert_eq!(m.days[0].day, 31);
    assert_eq!(m.invalid, vec!["/up/tmp".to_string()]);
    let expired_years = v.find_expires(2024);
    assert_eq!(expired_years.len(), 1);
    assert_eq!(expired_years[0].year, 2023);
    let jan = &v.years[1].months[0];
    let old_days: Vec<&DayBased> = jan.find_expires(10);
    assert_eq!(old_days.len(), 1);
    assert_eq!(old_days[0].day, 2);
    assert!(old_days[0].is_expired(10));
    assert_eq!(v.years[1].find_expires(2).len(), 1);
    assert!(!jan.is_expired(1));
}

#[test]
fn disk_entries_and_network() {
    let mounts = Mounts::parse_lines(&vec!["/dev/sda1 / ext4 rw 0 1".to_string()], &LabeledDevices::new(Vec::new()));
    let d = Stats::disk_entry("/dev/sda1", "ext4", 100, 40, 5, 6, "SSD", &mounts);
    assert_eq!((d.total, d.used, d.free, d.io_read, d.io_write), (100, 60, 40, 5, 6));
    assert_eq!(d.name, "/dev/sda1");
    assert_eq!(d.device.unwrap().mount_point, "/");
    let e = Stats::disk_entry("", "tmpfs", 10, 10, 0, 0, "Unknown", &Devices::new(Vec::new()));
    assert_eq!(e.name, "tmpfs");
    assert!(e.device.is_none());
    let (rx, tx) = Stats::network_totals(&vec![
        ("lo".to_string(), 1000, 1000),
        ("eth0".to_string(), 5, 7),
        ("wlan0".to_string(), 1, 2),
    ]);
    assert_eq!((rx, tx), (6, 9));
    assert!(Stats::memory_due(50, 10));
    assert!(!Stats::memory_due(49, 10));
    assert!(Stats::memory_due(1000, 1000));
    assert!(!Stats::memory_due(999, 1000));
}

#[test]
fn clean_base_is_stable() {
    for x in ["https://Example.com/site/?q=1", "blog/", "//blog/", "/", "", "HTTP://a.b#frag", "a/b/c/"] {
        let once = ThemeUri::new(x);
        let twice = ThemeUri::new(once.base_url());
        assert_eq!(once.base_url(), twice.base_url());
        let mut u = ThemeUri::new("other");
        u.set_base_url(x);
        assert_eq!(u.base_url(), once.base_url());
    }
}

#[test]
fn removal_guard() {
    let m = Multipart::new("/tmp/uploads");
    assert!(m.removal_stops_at("/tmp/uploads"));
    assert!(m.removal_stops_at("/tmp/uploads/a/b"));
    assert!(m.removal_stops_at("/tmp//uploads/./a"));
    assert!(!m.removal_stops_at("/tmp/uploads2"));
    assert!(!m.removal_stops_at("/tmp"));
    assert!(!m.removal_stops_at("tmp/uploads/a"));
    let r = Multipart::new("./up");
    assert!(r.removal_stops_at("./up/x"));
    assert!(!r.removal_stops_at("up/x"));
}
