//! Counters of the whole system from `/proc/stat`, and of this process
//! from `/proc/self/stat` and `/proc/self/statm`.
use vstd::prelude::*;

use crate::cpu_info::sat_sub;
use crate::table::string_views;
use crate::text::{
    chars_of, eq_str, last_at, parse_signed, parse_u32_or, parse_u64_or, parse_usize_or,
    split_whitespace, split_ws, starts_with, string_of, u32_or, u64_or, usize_or,
};

verus! {

/// Time counters of one processor, or of all of them.
#[derive(Debug, Clone)]
pub struct CpuMetric {
    pub name: String,
    pub user: u64,
    pub nice: u64,
    pub system: u64,
    pub idle: u64,
    pub iowait: u64,
    pub irq: u64,
    pub softirq: u64,
    pub steal: u64,
    pub total: u64,
}

/// A `CpuMetric` with its name as characters.
pub struct CpuMetricView {
    pub name: Seq<char>,
    pub user: u64,
    pub nice: u64,
    pub system: u64,
    pub idle: u64,
    pub iowait: u64,
    pub irq: u64,
    pub softirq: u64,
    pub steal: u64,
    pub total: u64,
}

impl View for CpuMetric {
    type V = CpuMetricView;

    open spec fn view(&self) -> CpuMetricView {
        CpuMetricView {
            name: self.name@,
            user: self.user,
            nice: self.nice,
            system: self.system,
            idle: self.idle,
            iowait: self.iowait,
            irq: self.irq,
            softirq: self.softirq,
            steal: self.steal,
            total: self.total,
        }
    }
}

/// Counters that are all zero, with no name.
pub open spec fn metric_zero() -> CpuMetricView {
    CpuMetricView {
        name: Seq::empty(),
        user: 0,
        nice: 0,
        system: 0,
        idle: 0,
        iowait: 0,
        irq: 0,
        softirq: 0,
        steal: 0,
        total: 0,
    }
}

/// The `i`th word read as a `u64`, zero when it is missing or no number.
pub open spec fn word_u64(p: Seq<Seq<char>>, i: int) -> u64 {
    if i < p.len() {
        u64_or(p[i], 0)
    } else {
        0
    }
}

/// The sum of the eight counters of a `cpu` line.
pub open spec fn metric_sum(p: Seq<Seq<char>>) -> nat {
    (word_u64(p, 1) + word_u64(p, 2) + word_u64(p, 3) + word_u64(p, 4) + word_u64(p, 5)
        + word_u64(p, 6) + word_u64(p, 7) + word_u64(p, 8)) as nat
}

/// The counters of a `cpu` line: user, nice, system, idle, iowait, irq,
/// softirq and steal in that order after the name, each zero when it is
/// missing, and their total.
pub open spec fn metric_of(p: Seq<Seq<char>>) -> CpuMetricView {
    CpuMetricView {
        name: p[0],
        user: word_u64(p, 1),
        nice: word_u64(p, 2),
        system: word_u64(p, 3),
        idle: word_u64(p, 4),
        iowait: word_u64(p, 5),
        irq: word_u64(p, 6),
        softirq: word_u64(p, 7),
        steal: word_u64(p, 8),
        total: metric_sum(p) as u64,
    }
}

/// Counters of the whole system.
#[derive(Debug, Clone)]
pub struct SystemStat {
    pub cpu_total: CpuMetric,
    pub cores: Vec<CpuMetric>,
    pub boot_time: u64,
    pub context_switches: u64,
    pub processes_total: u64,
    pub procs_running: u32,
    pub procs_blocked: u32,
}

/// A `SystemStat` through the views of its counters.
pub struct SystemStatView {
    pub cpu_total: CpuMetricView,
    pub cores: Seq<CpuMetricView>,
    pub boot_time: u64,
    pub context_switches: u64,
    pub processes_total: u64,
    pub procs_running: u32,
    pub procs_blocked: u32,
}

/// The views of counters.
pub open spec fn metric_views(v: Seq<CpuMetric>) -> Seq<CpuMetricView> {
    Seq::new(v.len(), |i: int| v[i]@)
}

impl View for SystemStat {
    type V = SystemStatView;

    open spec fn view(&self) -> SystemStatView {
        SystemStatView {
            cpu_total: self.cpu_total@,
            cores: metric_views(self.cores@),
            boot_time: self.boot_time,
            context_switches: self.context_switches,
            processes_total: self.processes_total,
            procs_running: self.procs_running,
            procs_blocked: self.procs_blocked,
        }
    }
}

/// Before any line.
pub open spec fn system_empty() -> SystemStatView {
    SystemStatView {
        cpu_total: metric_zero(),
        cores: Seq::empty(),
        boot_time: 0,
        context_switches: 0,
        processes_total: 0,
        procs_running: 0,
        procs_blocked: 0,
    }
}

/// The first word names a single number.
pub open spec fn number_key(k: Seq<char>) -> bool {
    k == "ctxt"@ || k == "btime"@ || k == "processes"@ || k == "procs_running"@ || k
        == "procs_blocked"@
}

/// A line of `/proc/stat` can be read: a line of one number has the
/// number, and the counters of a `cpu` line add up within `u64`.
pub open spec fn system_line_ok(line: Seq<char>) -> bool {
    let p = split_ws(line);
    p.len() > 0 ==> {
        &&& number_key(p[0]) ==> p.len() >= 2
        &&& !number_key(p[0]) && crate::text::has_prefix(p[0], "cpu"@) ==> metric_sum(p)
            <= u64::MAX
    }
}

/// The counters after one line of `/proc/stat`, cut at whitespace: the
/// single numbers by their keys, and a line whose first word starts with
/// `cpu` gives the counters of all processors (for `cpu`) or of one more
/// processor.
pub open spec fn system_line(s: SystemStatView, line: Seq<char>) -> SystemStatView {
    let p = split_ws(line);
    if p.len() == 0 {
        s
    } else if p[0] == "ctxt"@ {
        SystemStatView { context_switches: u64_or(p[1], 0), ..s }
    } else if p[0] == "btime"@ {
        SystemStatView { boot_time: u64_or(p[1], 0), ..s }
    } else if p[0] == "processes"@ {
        SystemStatView { processes_total: u64_or(p[1], 0), ..s }
    } else if p[0] == "procs_running"@ {
        SystemStatView { procs_running: u32_or(p[1], 0), ..s }
    } else if p[0] == "procs_blocked"@ {
        SystemStatView { procs_blocked: u32_or(p[1], 0), ..s }
    } else if crate::text::has_prefix(p[0], "cpu"@) {
        if p[0] == "cpu"@ {
            SystemStatView { cpu_total: metric_of(p), ..s }
        } else {
            SystemStatView { cores: s.cores.push(metric_of(p)), ..s }
        }
    } else {
        s
    }
}

/// The counters that the lines of `/proc/stat` describe.
pub open spec fn system_of_lines(lines: Seq<Seq<char>>) -> SystemStatView
    decreases lines.len(),
{
    if lines.len() == 0 {
        system_empty()
    } else {
        system_line(system_of_lines(lines.drop_last()), lines.last())
    }
}

fn word_or_zero(p: &Vec<Vec<char>>, i: usize) -> (r: u64)
    ensures
        r == word_u64(p@.map_values(|w: Vec<char>| w@), i as int),
{
    if i < p.len() {
        parse_u64_or(&p[i], 0)
    } else {
        0
    }
}

impl SystemStat {
    /// The busy time and the time passed between two readings of a
    /// processor, in ticks: the growth of the total, and of the total less
    /// the growth of idle plus waiting time; each growth is 0 where the
    /// counters went back. The usage in percent is their ratio times 100,
    /// 0 when no time passed.
    pub fn usage_deltas(curr: &CpuMetric, prev: &CpuMetric) -> (r: (u64, u64))
        requires
            curr.idle + curr.iowait <= u64::MAX,
            prev.idle + prev.iowait <= u64::MAX,
        ensures
            r.1 == sat_sub(curr.total as int, prev.total as int),
            r.0 == sat_sub(r.1 as int, sat_sub(curr.idle + curr.iowait, prev.idle + prev.iowait)),
    {
        let total_delta = curr.total.saturating_sub(prev.total);
        let idle_delta = (curr.idle + curr.iowait).saturating_sub(prev.idle + prev.iowait);
        (total_delta.saturating_sub(idle_delta), total_delta)
    }

    /// No counters yet.
    pub fn new() -> (r: SystemStat)
        ensures
            r@ == system_empty(),
    {
        let r = SystemStat {
            cpu_total: CpuMetric {
                name: String::new(),
                user: 0,
                nice: 0,
                system: 0,
                idle: 0,
                iowait: 0,
                irq: 0,
                softirq: 0,
                steal: 0,
                total: 0,
            },
            cores: Vec::new(),
            boot_time: 0,
            context_switches: 0,
            processes_total: 0,
            procs_running: 0,
            procs_blocked: 0,
        };
        assert(r@.cores =~= Seq::<CpuMetricView>::empty());
        r
    }

    /// Whether a line of `/proc/stat` can be read.
    pub fn line_ok(line: &str) -> (r: bool)
        ensures
            r == system_line_ok(line@),
    {
        let cs = chars_of(line);
        let p = split_whitespace(&cs);
        let ghost pv = p@.map_values(|w: Vec<char>| w@);
        assert(pv =~= split_ws(line@));
        if p.len() == 0 {
            return true;
        }
        let k = &p[0];
        let numeric = eq_str(k, "ctxt") || eq_str(k, "btime") || eq_str(k, "processes") || eq_str(
            k,
            "procs_running",
        ) || eq_str(k, "procs_blocked");
        if numeric {
            return p.len() >= 2;
        }
        let pre = chars_of("cpu");
        if starts_with(k, &pre) {
            let a = word_or_zero(&p, 1) as u128 + word_or_zero(&p, 2) as u128 + word_or_zero(&p, 3)
                as u128 + word_or_zero(&p, 4) as u128;
            let b = word_or_zero(&p, 5) as u128 + word_or_zero(&p, 6) as u128 + word_or_zero(&p, 7)
                as u128 + word_or_zero(&p, 8) as u128;
            return a + b <= u64::MAX as u128;
        }
        true
    }

    /// Takes one line of `/proc/stat`.
    pub fn read_line(&mut self, line: &str)
        requires
            system_line_ok(line@),
        ensures
            final(self)@ == system_line(old(self)@, line@),
    {
        let cs = chars_of(line);
        let p = split_whitespace(&cs);
        let ghost pv = p@.map_values(|w: Vec<char>| w@);
        assert(pv =~= split_ws(line@));
        if p.len() == 0 {
            return;
        }
        if eq_str(&p[0], "ctxt") {
            self.context_switches = parse_u64_or(&p[1], 0);
        } else if eq_str(&p[0], "btime") {
            self.boot_time = parse_u64_or(&p[1], 0);
        } else if eq_str(&p[0], "processes") {
            self.processes_total = parse_u64_or(&p[1], 0);
        } else if eq_str(&p[0], "procs_running") {
            self.procs_running = parse_u32_or(&p[1], 0);
        } else if eq_str(&p[0], "procs_blocked") {
            self.procs_blocked = parse_u32_or(&p[1], 0);
        } else {
            let pre = chars_of("cpu");
            if starts_with(&p[0], &pre) {
                let user = word_or_zero(&p, 1);
                let nice = word_or_zero(&p, 2);
                let system = word_or_zero(&p, 3);
                let idle = word_or_zero(&p, 4);
                let iowait = word_or_zero(&p, 5);
                let irq = word_or_zero(&p, 6);
                let softirq = word_or_zero(&p, 7);
                let steal = word_or_zero(&p, 8);
                let total = user + nice + system + idle + iowait + irq + softirq + steal;
                let m = CpuMetric {
                    name: string_of(&p[0]),
                    user,
                    nice,
                    system,
                    idle,
                    iowait,
                    irq,
                    softirq,
                    steal,
                    total,
                };
                if eq_str(&p[0], "cpu") {
                    self.cpu_total = m;
                } else {
                    let ghost before = self@.cores;
                    self.cores.push(m);
                    assert(self@.cores =~= before.push(m@));
                }
            }
        }
    }

    /// The counters that the lines of `/proc/stat` describe.
    pub fn parse_lines(lines: &Vec<String>) -> (r: SystemStat)
        requires
            forall|i: int| 0 <= i < lines@.len() ==> system_line_ok(#[trigger] lines@[i]@),
        ensures
            r@ == system_of_lines(string_views(lines@)),
    {
        let mut st = SystemStat::new();
        let ghost ls = string_views(lines@);
        let mut i: usize = 0;
        while i < lines.len()
            invariant
                0 <= i <= lines@.len(),
                ls == string_views(lines@),
                forall|j: int| 0 <= j < lines@.len() ==> system_line_ok(#[trigger] lines@[j]@),
                st@ == system_of_lines(ls.take(i as int)),
            decreases lines@.len() - i,
        {
            assert(ls.take(i + 1).drop_last() =~= ls.take(i as int));
            st.read_line(lines[i].as_str());
            i = i + 1;
        }
        assert(ls.take(lines@.len() as int) =~= ls);
        st
    }

    /// Seconds since boot at the given time (in seconds since the epoch):
    /// zero while the boot time is unknown, and never below zero.
    pub fn get_uptime(&self, now: u64) -> (r: u64)
        ensures
            r == if self.boot_time == 0 {
                0
            } else if now >= self.boot_time {
                (now - self.boot_time) as u64
            } else {
                0
            },
    {
        if self.boot_time == 0 {
            return 0;
        }
        now.saturating_sub(self.boot_time)
    }
}

/// What this process's `/proc/self/stat` tells, without the processor
/// share, which is a rate over time.
#[derive(Debug, Clone)]
pub struct Stat {
    pub pid: i32,
    pub comm: String,
    pub state: String,
    pub vsize: usize,
    pub rss: usize,
    pub utime: u64,
    pub stime: u64,
}

/// A `Stat` with its texts as characters.
pub struct StatView {
    pub pid: i32,
    pub comm: Seq<char>,
    pub state: Seq<char>,
    pub vsize: usize,
    pub rss: usize,
    pub utime: u64,
    pub stime: u64,
}

impl View for Stat {
    type V = StatView;

    open spec fn view(&self) -> StatView {
        StatView {
            pid: self.pid,
            comm: self.comm@,
            state: self.state@,
            vsize: self.vsize,
            rss: self.rss,
            utime: self.utime,
            stime: self.stime,
        }
    }
}

/// Where the last `)` is, if there is one.
pub open spec fn last_paren(s: Seq<char>) -> Option<int> {
    if s.contains(')') {
        Some(choose|i: int| last_at(s, ')', i))
    } else {
        None
    }
}

/// `s.parse::<i32>().unwrap_or(0)`.
pub open spec fn i32_or_zero(s: Seq<char>) -> i32 {
    match parse_signed(s, i32::MIN as int, i32::MAX as int) {
        Some(v) => v as i32,
        None => 0,
    }
}

/// The statistics file can be read: the part up to its last `)` has at
/// least two words, and the resident size in bytes fits in `usize`.
pub open spec fn stat_text_ok(s: Seq<char>, page_size: usize) -> bool {
    match last_paren(s) {
        None => true,
        Some(i) => {
            let hp = split_ws(s.take(i + 1));
            let tp = split_ws(s.skip(i + 1));
            &&& hp.len() >= 2
            &&& tp.len() > 21 ==> usize_or(tp[21], 0) * page_size <= usize::MAX
        },
    }
}

/// What a statistics file tells: the process id and command name are the
/// first two words up to the last `)`; after it, the state is the first
/// word, user and system time the 12th and 13th, the virtual size the
/// 21st and the resident pages the 22nd, in bytes. Missing parts are zero
/// or empty.
pub open spec fn stat_of(s: Seq<char>, page_size: usize) -> StatView {
    match last_paren(s) {
        None => StatView {
            pid: 0,
            comm: Seq::empty(),
            state: Seq::empty(),
            vsize: 0,
            rss: 0,
            utime: 0,
            stime: 0,
        },
        Some(i) => {
            let hp = split_ws(s.take(i + 1));
            let tp = split_ws(s.skip(i + 1));
            StatView {
                pid: i32_or_zero(hp[0]),
                comm: hp[1],
                state: if tp.len() > 0 {
                    tp[0]
                } else {
                    Seq::empty()
                },
                utime: if tp.len() > 12 {
                    u64_or(tp[11], 0)
                } else {
                    0
                },
                stime: if tp.len() > 12 {
                    u64_or(tp[12], 0)
                } else {
                    0
                },
                vsize: if tp.len() > 21 {
                    usize_or(tp[20], 0)
                } else {
                    0
                },
                rss: if tp.len() > 21 {
                    (usize_or(tp[21], 0) * page_size) as usize
                } else {
                    0
                },
            }
        },
    }
}

impl Stat {
    /// Whether a statistics file can be read with the given page size.
    pub fn text_ok(content: &str, page_size: usize) -> (r: bool)
        ensures
            r == stat_text_ok(content@, page_size),
    {
        let cs = chars_of(content);
        match crate::text::rfind_char(&cs, ')') {
            None => true,
            Some(i) => {
                proof {
                    lemma_last_at_unique(cs@, i as int);
                }
                let n = cs.len();
                assert(i < n);
                let head = crate::text::slice_copy(&cs, 0, i + 1);
                let tail = crate::text::slice_copy(&cs, i + 1, cs.len());
                assert(head@ =~= cs@.take(i + 1));
                assert(tail@ =~= cs@.skip(i + 1));
                let hp = split_whitespace(&head);
                let tp = split_whitespace(&tail);
                if hp.len() < 2 {
                    return false;
                }
                if tp.len() > 21 {
                    let pages = parse_usize_or(&tp[21], 0);
                    return pages.checked_mul(page_size).is_some();
                }
                true
            },
        }
    }

    /// What a statistics file tells.
    pub fn parse(content: &str, page_size: usize) -> (r: Stat)
        requires
            stat_text_ok(content@, page_size),
        ensures
            r@ == stat_of(content@, page_size),
    {
        let cs = chars_of(content);
        match crate::text::rfind_char(&cs, ')') {
            None => Stat {
                pid: 0,
                comm: String::new(),
                state: String::new(),
                vsize: 0,
                rss: 0,
                utime: 0,
                stime: 0,
            },
            Some(i) => {
                proof {
                    lemma_last_at_unique(cs@, i as int);
                }
                let n = cs.len();
                assert(i < n);
                let head = crate::text::slice_copy(&cs, 0, i + 1);
                let tail = crate::text::slice_copy(&cs, i + 1, cs.len());
                assert(head@ =~= cs@.take(i + 1));
                assert(tail@ =~= cs@.skip(i + 1));
                let hp = split_whitespace(&head);
                let tp = split_whitespace(&tail);
                let pid = match crate::text::parse_i32(&hp[0]) {
                    Some(v) => v,
                    None => 0,
                };
                let comm = string_of(&hp[1]);
                let state = if tp.len() > 0 {
                    string_of(&tp[0])
                } else {
                    String::new()
                };
                let mut utime: u64 = 0;
                let mut stime: u64 = 0;
                if tp.len() > 12 {
                    utime = parse_u64_or(&tp[11], 0);
                    stime = parse_u64_or(&tp[12], 0);
                }
                let mut vsize: usize = 0;
                let mut rss: usize = 0;
                if tp.len() > 21 {
                    vsize = parse_usize_or(&tp[20], 0);
                    rss = parse_usize_or(&tp[21], 0) * page_size;
                }
                Stat { pid, comm, state, vsize, rss, utime, stime }
            },
        }
    }
}

proof fn lemma_last_at_unique(s: Seq<char>, i: int)
    requires
        last_at(s, ')', i),
    ensures
        last_paren(s) == Some(i),
{
    assert(s.contains(')')) by {
        assert(s[i] == ')');
    }
    let k = choose|k: int| last_at(s, ')', k);
    assert(k == i) by {
        if k < i {
            assert(s[i] != ')');
        }
        if k > i {
            assert(s[k] != ')');
        }
    }
}

/// Memory use of this process, in bytes, from `/proc/self/statm`.
#[derive(Debug, Clone, Copy, PartialEq, Eq, Structural)]
pub struct StatMemory {
    pub page_size: usize,
    pub size: usize,
    pub rss: usize,
    pub shared: usize,
    pub text: usize,
    pub lib: usize,
    pub data: usize,
    pub dirty: usize,
}

/// The `i`th number of the words, as pages, in bytes.
pub open spec fn pages_bytes(p: Seq<Seq<char>>, i: int, page_size: usize) -> int {
    usize_or(p[i], 0) * page_size
}

/// The memory file can be read: with seven numbers, each in bytes fits
/// in `usize`.
pub open spec fn statm_ok(s: Seq<char>, page_size: usize) -> bool {
    let p = split_ws(s);
    p.len() >= 7 ==> forall|i: int| 0 <= i < 7 ==> #[trigger] pages_bytes(p, i, page_size) <= usize::MAX
}

/// What the memory file tells: with at least seven numbers, the sizes
/// in pages of the whole, resident, shared, text, library, data and dirty
/// memory, in bytes; otherwise zeros. The page size is kept.
pub open spec fn statm_of(s: Seq<char>, page_size: usize) -> StatMemory {
    let p = split_ws(s);
    if p.len() >= 7 {
        StatMemory {
            page_size,
            size: pages_bytes(p, 0, page_size) as usize,
            rss: pages_bytes(p, 1, page_size) as usize,
            shared: pages_bytes(p, 2, page_size) as usize,
            text: pages_bytes(p, 3, page_size) as usize,
            lib: pages_bytes(p, 4, page_size) as usize,
            data: pages_bytes(p, 5, page_size) as usize,
            dirty: pages_bytes(p, 6, page_size) as usize,
        }
    } else {
        StatMemory { page_size, size: 0, rss: 0, shared: 0, text: 0, lib: 0, data: 0, dirty: 0 }
    }
}

fn page_bytes(p: &Vec<Vec<char>>, i: usize, page_size: usize) -> (r: usize)
    requires
        i < p@.len(),
        pages_bytes(p@.map_values(|w: Vec<char>| w@), i as int, page_size) <= usize::MAX,
    ensures
        r == pages_bytes(p@.map_values(|w: Vec<char>| w@), i as int, page_size),
{
    parse_usize_or(&p[i], 0) * page_size
}

impl StatMemory {
    /// Whether a memory file can be read with the given page size.
    pub fn text_ok(content: &str, page_size: usize) -> (r: bool)
        ensures
            r == statm_ok(content@, page_size),
    {
        let cs = chars_of(content);
        let p = split_whitespace(&cs);
        let ghost pv = p@.map_values(|w: Vec<char>| w@);
        assert(pv =~= split_ws(content@));
        if p.len() < 7 {
            return true;
        }
        let mut i: usize = 0;
        while i < 7
            invariant
                0 <= i <= 7,
                p@.len() >= 7,
                pv == p@.map_values(|w: Vec<char>| w@),
                pv == split_ws(content@),
                forall|j: int| 0 <= j < i ==> #[trigger] pages_bytes(pv, j, page_size) <= usize::MAX,
            decreases 7 - i,
        {
            let n = parse_usize_or(&p[i], 0);
            assert(pv[i as int] == p@[i as int]@);
            if n.checked_mul(page_size).is_none() {
                assert(pages_bytes(pv, i as int, page_size) > usize::MAX);
                return false;
            }
            i = i + 1;
        }
        true
    }

    /// What a memory file tells, with the given page size.
    pub fn parse(content: &str, page_size: usize) -> (r: StatMemory)
        requires
            statm_ok(content@, page_size),
        ensures
            r == statm_of(content@, page_size),
    {
        let cs = chars_of(content);
        let p = split_whitespace(&cs);
        let ghost pv = p@.map_values(|w: Vec<char>| w@);
        assert(pv =~= split_ws(content@));
        if p.len() >= 7 {
            assert(pages_bytes(pv, 0, page_size) <= usize::MAX);
            assert(pages_bytes(pv, 1, page_size) <= usize::MAX);
            assert(pages_bytes(pv, 2, page_size) <= usize::MAX);
            assert(pages_bytes(pv, 3, page_size) <= usize::MAX);
            assert(pages_bytes(pv, 4, page_size) <= usize::MAX);
            assert(pages_bytes(pv, 5, page_size) <= usize::MAX);
            assert(pages_bytes(pv, 6, page_size) <= usize::MAX);
            StatMemory {
                page_size,
                size: page_bytes(&p, 0, page_size),
                rss: page_bytes(&p, 1, page_size),
                shared: page_bytes(&p, 2, page_size),
                text: page_bytes(&p, 3, page_size),
                lib: page_bytes(&p, 4, page_size),
                data: page_bytes(&p, 5, page_size),
                dirty: page_bytes(&p, 6, page_size),
            }
        } else {
            StatMemory { page_size, size: 0, rss: 0, shared: 0, text: 0, lib: 0, data: 0, dirty: 0 }
        }
    }

    /// Resident memory that is not shared: never below zero.
    pub fn private_rss(&self) -> (r: usize)
        ensures
            r == if self.rss >= self.shared {
                (self.rss - self.shared) as usize
            } else {
                0
            },
    {
        self.rss.saturating_sub(self.shared)
    }
}

} // verus!
