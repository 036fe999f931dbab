//! What the server counts while it runs (requests, open connections,
//! websockets, starts) and the schedule of its memory cleaner.
use vstd::prelude::*;

use crate::config::{
    default_auto_clean_memory, default_backlog, default_max_connections, default_max_connections_rate,
    workers_of, Config, DEFAULT_AUTO_CLEAN_MEMORY_INTERVAL, DEFAULT_AUTO_CLEAN_MEMORY_SIZE_BYTES,
};
use crate::hack::size_or_zero;
use crate::table::{copy_strings, string_views};
use crate::text::{chars_of, string_of};

verus! {

/// One more, wrapping at the top as an atomic counter does.
pub open spec fn bumped(x: usize) -> usize {
    if x == usize::MAX {
        0
    } else {
        (x + 1) as usize
    }
}

/// One less, wrapping at zero as an atomic counter does.
pub open spec fn dropped(x: usize) -> usize {
    if x == 0 {
        usize::MAX
    } else {
        (x - 1) as usize
    }
}

fn bump(x: usize) -> (r: usize)
    ensures
        r == bumped(x),
{
    if x == usize::MAX {
        0
    } else {
        x + 1
    }
}

fn drop_one(x: usize) -> (r: usize)
    ensures
        r == dropped(x),
{
    if x == 0 {
        usize::MAX
    } else {
        x - 1
    }
}

/// The counters of a server.
#[derive(Debug, Clone, Copy, PartialEq, Eq, Structural)]
pub struct ServerCounters {
    /// Requests since the process began.
    pub global_requests: usize,
    /// Requests since the server last started.
    pub total_requests: usize,
    /// Requests being served, websockets included.
    pub current_connections: usize,
    /// Websocket connections open.
    pub websocket_alive: usize,
    /// Websocket requests since the process began.
    pub websocket_requests: usize,
    /// How many times the server started.
    pub start_counter: usize,
    /// Seconds until the memory cleaner runs; `-1` where none is scheduled.
    pub next_auto_clean: isize,
    /// When the server last started, in seconds since the epoch.
    pub start_time: u64,
    pub running: bool,
    pub processing: bool,
    /// The workers where the configuration sets none.
    pub total_worker: usize,
}

impl ServerCounters {
    /// A server that has not started, with the workers that the machine
    /// offers.
    pub fn new(total_worker: usize) -> (r: ServerCounters)
        ensures
            r == (ServerCounters {
                global_requests: 0,
                total_requests: 0,
                current_connections: 0,
                websocket_alive: 0,
                websocket_requests: 0,
                start_counter: 0,
                next_auto_clean: -1isize,
                start_time: 0,
                running: false,
                processing: false,
                total_worker,
            }),
    {
        ServerCounters {
            global_requests: 0,
            total_requests: 0,
            current_connections: 0,
            websocket_alive: 0,
            websocket_requests: 0,
            start_counter: 0,
            next_auto_clean: -1,
            start_time: 0,
            running: false,
            processing: false,
            total_worker,
        }
    }

    /// Zeroes the requests since the start and the open connections.
    pub fn reset_stats(&mut self)
        ensures
            *final(self) == (ServerCounters {
                total_requests: 0,
                current_connections: 0,
                ..*old(self)
            }),
    {
        self.total_requests = 0;
        self.current_connections = 0;
    }

    /// A request comes in: it counts, and its connection is open (a
    /// websocket one too where it is a websocket).
    pub fn request_started(&mut self, is_websocket: bool)
        ensures
            *final(self) == (ServerCounters {
                total_requests: bumped(old(self).total_requests),
                global_requests: bumped(old(self).global_requests),
                current_connections: bumped(old(self).current_connections),
                websocket_requests: if is_websocket {
                    bumped(old(self).websocket_requests)
                } else {
                    old(self).websocket_requests
                },
                websocket_alive: if is_websocket {
                    bumped(old(self).websocket_alive)
                } else {
                    old(self).websocket_alive
                },
                ..*old(self)
            }),
    {
        self.total_requests = bump(self.total_requests);
        self.global_requests = bump(self.global_requests);
        self.current_connections = bump(self.current_connections);
        if is_websocket {
            self.websocket_requests = bump(self.websocket_requests);
            self.websocket_alive = bump(self.websocket_alive);
        }
    }

    /// A request is done (for a websocket: its stream has ended): its
    /// connection closes.
    pub fn request_finished(&mut self, is_websocket: bool)
        ensures
            *final(self) == (ServerCounters {
                current_connections: dropped(old(self).current_connections),
                websocket_alive: if is_websocket {
                    dropped(old(self).websocket_alive)
                } else {
                    old(self).websocket_alive
                },
                ..*old(self)
            }),
    {
        if is_websocket {
            self.websocket_alive = drop_one(self.websocket_alive);
        }
        self.current_connections = drop_one(self.current_connections);
    }

    /// The server has started at `now`: it runs, one more start is
    /// counted, and no memory cleaning is scheduled yet. Returns the
    /// number of this start.
    pub fn started(&mut self, now: u64) -> (r: usize)
        ensures
            r == bumped(old(self).start_counter),
            *final(self) == (ServerCounters {
                start_time: now,
                processing: false,
                running: true,
                start_counter: r,
                next_auto_clean: -1isize,
                ..*old(self)
            }),
    {
        self.start_time = now;
        self.processing = false;
        self.running = true;
        self.start_counter = bump(self.start_counter);
        self.next_auto_clean = -1;
        self.start_counter
    }

    /// The server has stopped: it no longer runs and its counts since the
    /// start are zeroed.
    pub fn stopped(&mut self)
        ensures
            *final(self) == (ServerCounters {
                running: false,
                total_requests: 0,
                current_connections: 0,
                ..*old(self)
            }),
    {
        self.reset_stats();
        self.running = false;
    }

    /// Seconds since the start while the server runs, else 0.
    pub fn uptime(&self, now: u64) -> (r: u64)
        requires
            self.running ==> now >= self.start_time,
        ensures
            r == if self.running {
                (now - self.start_time) as u64
            } else {
                0
            },
    {
        if !self.running {
            return 0;
        }
        now - self.start_time
    }

    /// The workers: those the configuration sets, else those the machine
    /// offers.
    pub fn get_total_worker(&self, configured: Option<usize>) -> (r: usize)
        ensures
            r == match configured {
                Some(w) => w,
                None => self.total_worker,
            },
    {
        match configured {
            Some(w) => w,
            None => self.total_worker,
        }
    }

    /// The requests since the start and the open connections.
    pub fn get_stats(&self) -> (r: (usize, usize))
        ensures
            r == (self.total_requests, self.current_connections),
    {
        (self.total_requests, self.current_connections)
    }
}

/// A request that comes in and is done leaves the open connections as they
/// were, and counts once.
pub proof fn lemma_request_round_trip(c: ServerCounters, is_websocket: bool)
    ensures
        ({
            let a = ServerCounters {
                total_requests: bumped(c.total_requests),
                global_requests: bumped(c.global_requests),
                current_connections: bumped(c.current_connections),
                websocket_requests: if is_websocket {
                    bumped(c.websocket_requests)
                } else {
                    c.websocket_requests
                },
                websocket_alive: if is_websocket {
                    bumped(c.websocket_alive)
                } else {
                    c.websocket_alive
                },
                ..c
            };
            dropped(a.current_connections) == c.current_connections && (is_websocket ==> dropped(
                a.websocket_alive,
            ) == c.websocket_alive)
        }),
{
}

/// Whether a memory cleaner runs after a start: it is enabled, with an
/// interval, and its threshold is under the machine's memory.
pub fn auto_clean_enabled(enabled: bool, interval_secs: u64, threshold: u64, total_memory: u64) -> (r: bool)
    ensures
        r == (enabled && interval_secs > 0 && threshold < total_memory),
{
    enabled && interval_secs > 0 && threshold < total_memory
}

/// The schedule of the memory cleaner, which wakes ten times a second and,
/// every `seconds`, trims the memory unless the process uses less than
/// `safe_memory`.
#[derive(Debug, Clone, Copy, PartialEq, Eq, Structural)]
pub struct MemoryCleaner {
    pub seconds: u64,
    pub counter_data: u64,
    pub seconds_counter: u64,
    pub safe_memory: u64,
}

/// What a wake-up of the cleaner leads to.
#[derive(Debug, Clone, Copy, PartialEq, Eq, Structural)]
pub enum CleanerTick {
    /// The server stopped or started again: the cleaner ends.
    Stop,
    /// Not yet time.
    Wait,
    /// Time to look at the memory.
    Due,
}

/// What the cleaner does when it is time.
#[derive(Debug, Clone, Copy, PartialEq, Eq, Structural)]
pub enum CleanerAction {
    /// The process uses less than the threshold: nothing.
    Skip,
    /// Trim the memory.
    Clean,
}

/// The cleaner after one wake-up while the server runs as it started.
pub open spec fn ticked(c: MemoryCleaner) -> MemoryCleaner {
    MemoryCleaner { seconds_counter: (c.seconds_counter + 1) as u64, ..c }
}

/// The cleaner after `n` wake-ups.
pub open spec fn ticked_n(c: MemoryCleaner, n: nat) -> MemoryCleaner
    decreases n,
{
    if n == 0 {
        c
    } else {
        ticked(ticked_n(c, (n - 1) as nat))
    }
}

impl MemoryCleaner {
    pub const TICKS_PER_SECOND: u64 = 10;

    /// Between two runs: the count of wake-ups is under the period.
    pub open spec fn waiting(&self) -> bool {
        &&& 0 < self.seconds <= isize::MAX
        &&& self.counter_data == self.seconds * 10
        &&& self.seconds_counter < self.counter_data
    }

    /// Time to run: the count of wake-ups has reached the period.
    pub open spec fn pending(&self) -> bool {
        &&& 0 < self.seconds <= isize::MAX
        &&& self.counter_data == self.seconds * 10
        &&& self.seconds_counter == self.counter_data
    }

    /// A cleaner that runs every `seconds`; the seconds until it runs are
    /// `seconds`.
    pub fn start(seconds: u64, safe_memory: u64) -> (r: (MemoryCleaner, isize))
        requires
            0 < seconds <= isize::MAX,
            seconds * 10 <= u64::MAX,
        ensures
            r.0.waiting(),
            r.0 == (MemoryCleaner { seconds, counter_data: (seconds * 10) as u64, seconds_counter: 0, safe_memory }),
            r.1 == seconds,
    {
        let counter_data: u64 = seconds * Self::TICKS_PER_SECOND;
        (MemoryCleaner { seconds, counter_data, seconds_counter: 0, safe_memory }, seconds as isize)
    }

    /// One wake-up. The cleaner stops where the server no longer runs or has
    /// started again since (the seconds until a run are then 0); else one
    /// more wake-up counts, the seconds until the run are what is left of
    /// the period, and at the end of the period it is time to run.
    pub fn tick(&mut self, running: bool, same_start: bool) -> (r: (CleanerTick, isize))
        requires
            old(self).waiting(),
        ensures
            !(running && same_start) ==> r == (CleanerTick::Stop, 0isize) && *final(self) == *old(self),
            running && same_start ==> {
                &&& *final(self) == ticked(*old(self))
                &&& r.1 == (final(self).counter_data - final(self).seconds_counter) / 10
                &&& r.0 == if final(self).seconds_counter >= final(self).counter_data {
                    CleanerTick::Due
                } else {
                    CleanerTick::Wait
                }
                &&& r.0 == CleanerTick::Due ==> final(self).pending()
                &&& r.0 == CleanerTick::Wait ==> final(self).waiting()
            },
    {
        if !(running && same_start) {
            return (CleanerTick::Stop, 0);
        }
        self.seconds_counter = self.seconds_counter + 1;
        let left: u64 = (self.counter_data - self.seconds_counter) / Self::TICKS_PER_SECOND;
        assert(left <= self.seconds) by (nonlinear_arith)
            requires
                left == (self.counter_data - self.seconds_counter) / 10,
                self.counter_data == self.seconds * 10,
                self.seconds_counter >= 1,
                self.seconds_counter <= self.counter_data,
        ;
        let next: isize = left as isize;
        if self.seconds_counter >= self.counter_data {
            (CleanerTick::Due, next)
        } else {
            (CleanerTick::Wait, next)
        }
    }

    /// At the end of a period, given the memory the process uses: it is
    /// trimmed unless that is under the threshold; either way a new period
    /// begins, `seconds` long.
    pub fn due(&mut self, memory_usage: u64) -> (r: (CleanerAction, isize))
        requires
            old(self).pending(),
        ensures
            final(self).waiting(),
            *final(self) == (MemoryCleaner { seconds_counter: 0, ..*old(self) }),
            r.0 == if old(self).safe_memory > memory_usage {
                CleanerAction::Skip
            } else {
                CleanerAction::Clean
            },
            r.1 == old(self).seconds,
    {
        self.seconds_counter = 0;
        let action = if self.safe_memory > memory_usage {
            CleanerAction::Skip
        } else {
            CleanerAction::Clean
        };
        (action, self.seconds as isize)
    }
}

/// From the beginning of a period, the cleaner waits through the first
/// `10 * seconds - 1` wake-ups and is due at the next one.
pub proof fn lemma_cleaner_period(c: MemoryCleaner, n: nat)
    requires
        c.waiting(),
        c.seconds_counter == 0,
        n <= c.counter_data,
    ensures
        ticked_n(c, n).seconds_counter == n,
        ticked_n(c, n).seconds == c.seconds && ticked_n(c, n).counter_data == c.counter_data,
        0 < n < c.counter_data ==> ticked_n(c, n).waiting(),
        n == c.counter_data ==> ticked_n(c, n).pending(),
    decreases n,
{
    if n > 0 {
        lemma_cleaner_period(c, (n - 1) as nat);
    }
}

/// The listeners of a running server: plain and TLS.
#[derive(Debug)]
pub struct TcpSocket {
    pub http: Vec<String>,
    pub https: Vec<String>,
}

/// The listeners to report: those the running server bound; else those the
/// configuration names, the plain ones and the TLS ones, none where there is
/// no configuration.
pub fn tcp_socket_of(bound: Option<TcpSocket>, config: Option<&Config>) -> (r: TcpSocket)
    ensures
        match bound {
            Some(b) => r == b,
            None => match config {
                Some(c) => string_views(r.http@) == string_views(c.app.tcp@) && string_views(r.https@)
                    == string_views(c.app.ssl.listen@),
                None => r.http@.len() == 0 && r.https@.len() == 0,
            },
        },
{
    match bound {
        Some(b) => b,
        None => match config {
            Some(c) => {
                let http = copy_strings(&c.app.tcp);
                let https = copy_strings(&c.app.ssl.listen);
                assert(string_views(http@) =~= string_views(c.app.tcp@));
                assert(string_views(https@) =~= string_views(c.app.ssl.listen@));
                TcpSocket { http, https }
            },
            None => TcpSocket { http: Vec::new(), https: Vec::new() },
        },
    }
}

/// The settings a server reports about itself.
#[derive(Debug)]
pub struct ServerSettings {
    pub max_connections: usize,
    pub backlog: u32,
    pub connection_rate: usize,
    pub config_file: Option<String>,
    pub auto_clean_memory: bool,
    pub auto_clean_memory_size: u64,
    pub auto_clean_memory_interval: u64,
    pub environment: String,
}

/// The settings a server reports: those of its configuration, where it has
/// one (`interval_secs` being the seconds of its memory-cleaning interval),
/// else the defaults, with `N/A` for the environment.
pub fn server_settings(config: Option<&Config>, available_cpus: Option<usize>, interval_secs: u64) -> (r: ServerSettings)
    requires
        workers_of(available_cpus) * 256 <= usize::MAX,
    ensures
        match config {
            Some(c) => {
                &&& r.max_connections == c.app.max_connections
                &&& r.backlog == c.app.backlog
                &&& r.connection_rate == c.app.max_connections_rate
                &&& r.config_file matches Some(f) && f@ == c.file@
                &&& r.auto_clean_memory == c.app.auto_clean_memory
                &&& r.auto_clean_memory_size == size_or_zero(c.app.auto_clean_memory_size@)
                &&& r.auto_clean_memory_interval == interval_secs
                &&& r.environment@ == c.app.mode@
            },
            None => {
                &&& r.max_connections == 25000
                &&& r.backlog == 4096
                &&& r.connection_rate == workers_of(available_cpus) * 256
                &&& r.config_file is None
                &&& r.auto_clean_memory
                &&& r.auto_clean_memory_size == DEFAULT_AUTO_CLEAN_MEMORY_SIZE_BYTES
                &&& r.auto_clean_memory_interval == DEFAULT_AUTO_CLEAN_MEMORY_INTERVAL
                &&& r.environment@ == "N/A"@
            },
        },
{
    match config {
        Some(c) => ServerSettings {
            max_connections: c.app.max_connections(),
            backlog: c.app.backlog(),
            connection_rate: c.app.max_connections_rate(),
            config_file: Some(string_of(&chars_of(c.file()))),
            auto_clean_memory: c.app.auto_clean_memory(),
            auto_clean_memory_size: c.app.auto_clean_memory_size_bytes(),
            auto_clean_memory_interval: interval_secs,
            environment: string_of(&chars_of(c.app.mode())),
        },
        None => ServerSettings {
            max_connections: default_max_connections(),
            backlog: default_backlog(),
            connection_rate: default_max_connections_rate(available_cpus),
            config_file: None,
            auto_clean_memory: default_auto_clean_memory(),
            auto_clean_memory_size: DEFAULT_AUTO_CLEAN_MEMORY_SIZE_BYTES,
            auto_clean_memory_interval: DEFAULT_AUTO_CLEAN_MEMORY_INTERVAL,
            environment: string_of(&chars_of("N/A")),
        },
    }
}

/// The processors as reported: the usage texts are written by the caller
/// from the measured shares.
#[derive(Debug, Clone)]
pub struct CpuStat {
    pub logical_cores: usize,
    pub physical_cores: usize,
    pub model: String,
    pub freq: String,
    pub global_usage_percentage: String,
    pub usage_percentage: String,
}

/// The memory of the machine and of the process.
#[derive(Debug, Clone)]
pub struct MemoryStat {
    pub total_memory: usize,
    pub free_memory: usize,
    pub available_memory: usize,
    pub used_memory: usize,
    pub memory: crate::status::MemoryStatus,
}

/// The process and the server's settings.
#[derive(Debug, Clone)]
pub struct ServerSystemInfo {
    pub is_cargo: bool,
    pub is_daemon: bool,
    pub running: bool,
    pub pid: u32,
    pub start_time: u64,
    pub uptime: u64,
    pub user_name: String,
    pub user_id: usize,
    pub group_name: String,
    pub group_id: usize,
    pub workers: usize,
    pub backlog: usize,
    pub connection_rate: usize,
    pub max_connections: usize,
    pub root_dir: String,
    pub config_file: Option<String>,
    pub server_start_counter: usize,
}

/// Where the server listens and what went through the network.
#[derive(Debug)]
pub struct NetWorkInfo {
    pub tcp: TcpSocket,
    pub socket: String,
    pub control_socket: String,
    pub upload: usize,
    pub download: usize,
}

/// The requests and connections of the server.
#[derive(Debug, Clone, Copy, PartialEq, Eq, Structural)]
pub struct Statistics {
    pub total_request: usize,
    pub total_global_request: usize,
    pub active_connections: usize,
    pub websocket_request: usize,
    pub active_websocket_connections: usize,
}

impl Statistics {
    /// The statistics that the server's counters hold.
    pub fn from_counters(c: &ServerCounters) -> (r: Statistics)
        ensures
            r == (Statistics {
                total_request: c.total_requests,
                total_global_request: c.global_requests,
                active_connections: c.current_connections,
                websocket_request: c.websocket_requests,
                active_websocket_connections: c.websocket_alive,
            }),
    {
        Statistics {
            total_request: c.total_requests,
            total_global_request: c.global_requests,
            active_connections: c.current_connections,
            websocket_request: c.websocket_requests,
            active_websocket_connections: c.websocket_alive,
        }
    }
}

/// The application and its memory cleaning.
#[derive(Debug, Clone)]
pub struct AppInfo {
    pub name: String,
    pub version: String,
    pub environment: String,
    pub version_full: String,
    pub build_timestamp: String,
    pub build_timestamp_date: String,
    pub auto_clean_memory: bool,
    pub auto_clean_memory_size: usize,
    pub auto_clean_memory_interval: usize,
    pub next_auto_clean: isize,
}

/// Everything the server reports about itself.
#[derive(Debug)]
pub struct ServerStats {
    pub app: AppInfo,
    pub memory: MemoryStat,
    pub cpu: CpuStat,
    pub system: ServerSystemInfo,
    pub network: NetWorkInfo,
    pub stats: Statistics,
    pub disks: Vec<crate::stats::Disk>,
}

} // verus!
