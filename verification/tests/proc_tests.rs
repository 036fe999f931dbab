use tray_node::cpu_info::{CpuInfo, CpuLoad, CpuUsage};
use tray_node::hack::{interval_secs, Hack};
use tray_node::mounts::{Devices, LabeledDevice, LabeledDevices, Mounts};
use tray_node::proc_stat::{Stat, StatMemory, SystemStat};
use tray_node::status::{CredentialStatus, Status};

fn lines(text: &str) -> Vec<String> {
    text.lines().map(|l| l.to_string()).collect()
}

#[test]
fn sizes_in_bytes() {
    assert_eq!(Hack::size_to_bytes("8192 kB"), Some(8192 * 1024));
    assert_eq!(Hack::size_to_bytes("  12 "), Some(12));
    assert_eq!(Hack::size_to_bytes("3MB"), Some(3 * 1024 * 1024));
    assert_eq!(Hack::size_to_bytes("2 GiB"), Some(2 * 1024 * 1024 * 1024));
    assert_eq!(Hack::size_to_bytes("1 t"), Some(1024u64.pow(4)));
    assert_eq!(Hack::size_to_bytes("kB"), None);
    assert_eq!(Hack::size_to_bytes("12 parsecs"), None);
    assert_eq!(Hack::size_to_bytes("18446744073709551615 b"), Some(u64::MAX));
    assert_eq!(Hack::size_to_bytes("18446744073709551616"), None);
    assert_eq!(Hack::size_to_bytes("18014398509481984 kB"), None);
}

#[test]
fn status_file_sections() {
    let text = "Name:\tbash\nUmask:\t0022\nState:\tS (sleeping)\nTgid:\t1234\nPid:\t1234\nPPid:\t1\nTracerPid:\t0\nUid:\t1000\t1001\t1002\t1003\nGid:\t100\t101\t102\t103\nFDSize:\t256\nGroups:\t0 4 24 27\nNStgid:\t1234\nNSpid:\t1234\nNSpgid:\t1234\nNSsid:\t1200\nVmPeak:\t  10 kB\nVmRSS:\t 2 kB\nRssShmem:\t 1 MB\nSigQ:\t0/31\nCapEff:\t0000000000000000\nno colon line\n";
    let st = Status::parse_lines(&lines(text));
    assert_eq!(st.identity.name, "bash");
    assert_eq!(st.identity.umask, "0022");
    assert_eq!(st.identity.state, "S (sleeping)");
    assert_eq!(st.identity.thread_group_id, 1234);
    assert_eq!(st.identity.ppid, 1);
    assert_eq!(st.credential.uid, 1000);
    assert_eq!(st.credential.euid, 1001);
    assert_eq!(st.credential.suid, 1002);
    assert_eq!(st.credential.fsuid, 1003);
    assert_eq!(st.credential.gid, 100);
    assert_eq!(st.credential.fsgid, 103);
    assert_eq!(st.credential.fd_size, 256);
    assert_eq!(st.credential.groups, vec![4, 24, 27]);
    assert_eq!(st.namespace_thread.sid, 1200);
    assert_eq!(st.memory.vm_peak, 10 * 1024);
    assert_eq!(st.memory.vm_rss, 2 * 1024);
    assert_eq!(st.memory.rss_sh_mem, 1024 * 1024);
    assert_eq!(st.signal_capabilities.sigq, "0/31");
    assert_eq!(st.signal_capabilities.capeff, "0000000000000000");
}

#[test]
fn short_id_lines_fall_back_to_the_real_id() {
    let st = Status::parse_lines(&lines("Uid: 7\nGid:\n"));
    assert_eq!((st.credential.uid, st.credential.euid, st.credential.suid, st.credential.fsuid), (7, 7, 7, 7));
    assert_eq!((st.credential.gid, st.credential.egid), (0, 0));
}

#[test]
fn cpuinfo_processors() {
    let text = "processor\t: 0\nvendor_id\t: GenuineIntel\ncpu family\t: 6\nmodel\t\t: 142\nmodel name\t:   Intel(R)   Core(TM) i7  \ncpu MHz\t\t: 2400.000\ncache size\t: 8192 KB\nphysical id\t: 0\ncore id\t\t: 0\nfpu\t\t: yes\nwp\t\t: no\nflags\t\t: fpu vme de\n\nprocessor\t: 1\nphysical id\t: 0\ncore id\t\t: 1\n\nprocessor\t: 2\nphysical id\t: 0\ncore id\t\t: 1\n";
    let info = CpuInfo::parse_lines(&lines(text));
    assert_eq!(info.logical_cores(), 3);
    assert_eq!(info.physical_cores(), 2);
    let c = &info.cpu[0];
    assert_eq!(c.vendor_id, "GenuineIntel");
    assert_eq!(c.cpu_family, 6);
    assert_eq!(c.model, 142);
    assert_eq!(c.cpu_mhz, "2400.000");
    assert_eq!(c.cache_size, 8192 * 1024);
    assert!(c.fpu);
    assert!(!c.wp);
    assert_eq!(c.flags, vec!["fpu".to_string(), "vme".to_string(), "de".to_string()]);
    assert_eq!(info.cpu[2].processor, 2);
    assert_eq!(info.model().unwrap(), "Intel(R)   Core(TM) i7");
    assert_eq!(info.model_name().unwrap(), "Intel(R)   Core(TM) i7");
    assert_eq!(info.brand().unwrap(), "Intel(R) Core(TM) i7");
    assert_eq!(info.model_id().unwrap(), "6-142");
    assert_eq!(info.family().unwrap(), "6-142");
    assert_eq!(info.total_hertz(), 0);
}

#[test]
fn cpuinfo_empty() {
    let info = CpuInfo::parse_lines(&Vec::new());
    assert_eq!(info.logical_cores(), 0);
    assert_eq!(info.physical_cores(), 0);
    assert!(info.model().is_none());
    assert!(info.brand().is_none());
}

#[test]
fn cpu_load_counters() {
    let mut l = CpuLoad::new();
    let v: Vec<char> = "1 2 3 4 5 6 7 8".chars().collect();
    l.set_data(3, &v);
    assert_eq!((l.cpu, l.user, l.nice, l.system, l.idle, l.iowait, l.irq, l.softirq, l.total), (3, 1, 2, 3, 4, 5, 6, 7, 36));
    let short: Vec<char> = "9 9".chars().collect();
    l.set_data(5, &short);
    assert_eq!(l.cpu, 3);
}

#[test]
fn proc_stat_usage_sorted_by_processor() {
    let text = "cpu  10 0 5 100 1 0 0 0 0 0\ncpu1 2 0 1 50 0 0 0 0 0 0\ncpu0 3 0 1 40 0 0 0 0 0 0\ncpu1 4 0 1 60 0 0 0 0 0 0\nintr 1 2 3\nctxt 555\nbtime 1700000000\nprocesses 77\nprocs_running 2\nprocs_blocked 1\nsoftirq 9 8 x\ncpux 1 2 3 4 5 6 7\n";
    let ls = lines(text);
    assert!(CpuUsage::lines_fit(&ls));
    let u = CpuUsage::parse_lines(&ls);
    assert_eq!(u.total.total, 116);
    assert_eq!(u.cpu.len(), 2);
    assert_eq!(u.cpu[0].user, 3);
    assert_eq!(u.cpu[1].user, 4);
    assert_eq!(u.cpu[0].cpu, 1);
    assert_eq!(u.cpu[1].cpu, 2);
    assert_eq!(u.ctxt, 555);
    assert_eq!(u.btime, 1700000000);
    assert_eq!(u.processes, 77);
    assert_eq!((u.procs_running, u.procs_blocked), (2, 1));
    assert_eq!(u.softirq, vec![9, 8, 0]);
}

#[test]
fn proc_stat_overflowing_counters_are_detected() {
    let ls = lines("cpu 18446744073709551615 1 0 0 0 0 0\n");
    assert!(!CpuUsage::lines_fit(&ls));
}

#[test]
fn system_stat_lines() {
    let text = "cpu  10 1 5 100 1 2 3 4 9 9\ncpu0 5 0 2 50\nctxt 42\nbtime 1000\nprocesses 9\nprocs_running 3\nprocs_blocked 0\nother 1\n\n";
    let ls = lines(text);
    assert!(ls.iter().all(|l| SystemStat::line_ok(l)));
    let s = SystemStat::parse_lines(&ls);
    assert_eq!(s.cpu_total.name, "cpu");
    assert_eq!(s.cpu_total.total, 10 + 1 + 5 + 100 + 1 + 2 + 3 + 4);
    assert_eq!(s.cores.len(), 1);
    assert_eq!(s.cores[0].idle, 50);
    assert_eq!(s.cores[0].iowait, 0);
    assert_eq!(s.cores[0].total, 57);
    assert_eq!(s.context_switches, 42);
    assert_eq!(s.boot_time, 1000);
    assert_eq!(s.processes_total, 9);
    assert_eq!(s.procs_running, 3);
    assert_eq!(s.get_uptime(1500), 500);
    assert_eq!(s.get_uptime(10), 0);
    assert!(!SystemStat::line_ok("ctxt"));
}

#[test]
fn uptime_unknown_boot() {
    let s = SystemStat::parse_lines(&Vec::new());
    assert_eq!(s.get_uptime(12345), 0);
}

#[test]
fn process_stat_fields() {
    let text = "4242 (my prog) S 1 4242 4242 0 -1 4194560 100 0 0 0 15 7 0 0 20 0 1 0 100 123456 30 184467 0 0\n";
    assert!(Stat::text_ok(text, 4096));
    let s = Stat::parse(text, 4096);
    assert_eq!(s.pid, 4242);
    assert_eq!(s.comm, "(my");
    assert_eq!(s.state, "S");
    assert_eq!(s.utime, 15);
    assert_eq!(s.stime, 7);
    assert_eq!(s.vsize, 123456);
    assert_eq!(s.rss, 30 * 4096);
    let empty = Stat::parse("no paren", 4096);
    assert_eq!(empty.pid, 0);
    assert!(!Stat::text_ok("justone)", 4096));
}

#[test]
fn statm_fields() {
    let m = StatMemory::parse("10 4 2 1 0 3 0\n", 4096);
    assert_eq!(m.page_size, 4096);
    assert_eq!(m.size, 40960);
    assert_eq!(m.rss, 16384);
    assert_eq!(m.shared, 8192);
    assert_eq!(m.private_rss(), 8192);
    let short = StatMemory::parse("1 2", 4096);
    assert_eq!(short.size, 0);
    assert!(StatMemory::text_ok("1 2 3 4 5 6 7", 4096));
    assert!(!StatMemory::text_ok("18446744073709551615 2 3 4 5 6 7", 4096));
}

#[test]
fn private_rss_never_below_zero() {
    let m = StatMemory::parse("10 1 5 1 0 3 0\n", 1);
    assert_eq!(m.private_rss(), 0);
}

#[test]
fn mounts_with_labels() {
    let labels = LabeledDevices::new(vec![
        LabeledDevice::new("/dev/sda1", "ROOT"),
        LabeledDevice::new("/dev/sdb1", "DATA"),
        LabeledDevice::new("/dev/sda1", "SYSTEM"),
    ]);
    assert_eq!(labels.get("/dev/sda1").unwrap().label, "SYSTEM");
    assert!(labels.get("/dev/sdc1").is_none());
    let text = "/dev/sda1 / EXT4 rw,relatime 0 1\ntmpfs /tmp tmpfs rw,nosuid 0 0\n/dev/nvme0n1p2 /data xfs ro,noatime 0 2\nshort line\n";
    let devices = Mounts::parse_lines(&lines(text), &labels);
    let root = devices.get("/dev/sda1").unwrap();
    assert_eq!(root.mount_point, "/");
    assert_eq!(root.fs_type, "ext4");
    assert!(root.is_ext4());
    assert!(root.is_physical());
    assert!(!root.is_readonly());
    assert_eq!(root.flags, vec!["rw".to_string(), "relatime".to_string()]);
    assert_eq!(root.pass, 1);
    assert_eq!(root.label.as_ref().unwrap().label, "SYSTEM");
    let tmp = devices.get("tmpfs").unwrap();
    assert!(tmp.is_tmpfs());
    assert!(tmp.is_virtual());
    assert!(tmp.label.is_none());
    let data = devices.get("/dev/nvme0n1p2").unwrap();
    assert!(data.is_readonly());
    assert!(data.is_xfs());
    assert_eq!(data.get_device(), "/dev/nvme0n1p2");
    assert!(devices.get("short").is_none());
}

#[test]
fn later_mount_of_a_device_wins() {
    let labels = LabeledDevices::new(Vec::new());
    let text = "/dev/sda1 /a ext4 rw 0 0\n/dev/sda1 /b ext4 rw 0 0\n";
    let devices = Mounts::parse_lines(&lines(text), &labels);
    assert_eq!(devices.get("/dev/sda1").unwrap().mount_point, "/b");
    let empty = Devices::new(Vec::new());
    assert!(empty.get("/dev/sda1").is_none());
}

#[test]
fn id_lines_in_order() {
    let c = |s: &str| s.chars().collect::<Vec<char>>();
    assert_eq!(CredentialStatus::split_id(&c("1000 1001 1002 1003")), (1000, 1001, 1002, 1003));
    assert_eq!(CredentialStatus::split_id(&c("5")), (5, 5, 5, 5));
    assert_eq!(CredentialStatus::split_id(&c("5 6")), (5, 6, 5, 5));
    assert_eq!(CredentialStatus::split_id(&c("")), (0, 0, 0, 0));
}

#[test]
fn refresh_decisions() {
    assert_eq!(tray_node::refresh::force_action(true, 0, true), tray_node::refresh::ForceAction::ServeBusy);
    assert_eq!(tray_node::refresh::force_action(false, 10, false), tray_node::refresh::ForceAction::ServeRecent);
    assert_eq!(tray_node::refresh::force_action(false, 10, true), tray_node::refresh::ForceAction::Reread);
    assert_eq!(tray_node::refresh::force_action(false, 50, false), tray_node::refresh::ForceAction::Reread);
    assert!(tray_node::refresh::cache_expired(true, 0, 1000));
    assert!(!tray_node::refresh::cache_expired(false, 999, 1000));
    assert!(tray_node::refresh::cache_expired(false, 1000, 1000));
    assert_eq!(tray_node::refresh::mounts_action(false, false, 5000, 1000), tray_node::refresh::ForceAction::ServeRecent);
    assert_eq!(tray_node::refresh::mounts_action(false, false, 10, 1000), tray_node::refresh::ForceAction::Reread);
    assert_eq!(tray_node::refresh::mounts_action(true, false, 10, 1000), tray_node::refresh::ForceAction::ServeBusy);
}

#[test]
fn cleaning_intervals() {
    assert_eq!(interval_secs("3600"), 3600);
    assert_eq!(interval_secs(" 2h "), 7200);
    assert_eq!(interval_secs("30 m"), 1800);
    assert_eq!(interval_secs("1d"), 86400);
    assert_eq!(interval_secs("5s"), 5);
    assert_eq!(interval_secs("5w"), 0);
    assert_eq!(interval_secs("h"), 0);
    assert_eq!(interval_secs(""), 0);
    assert_eq!(interval_secs("99999999999999999999"), 0);
    assert_eq!(interval_secs("18446744073709551615d"), u64::MAX);
}
