//! Where the application keeps its files, and what it knows of the
//! process it runs in.
//!
//! The process environment is read at the edge and handed in as plain
//! values; every directory is derived from them here.
use vstd::prelude::*;

use crate::console::{config_view, ConsoleArguments};
use crate::path::{clean, cleaned_path, is_absolute, join, join_path};
use crate::text::{chars_of, dec, eq_str, fmt_u128, has_suffix, lowercase, push_all, string_of, to_lowercase, trim, trim_chars};

verus! {

/// What the build says of the application.
#[derive(Debug, Clone)]
pub struct BuildInfo {
    pub name: String,
    pub version: String,
    pub description: String,
    pub author: String,
    pub build_timestamp: String,
    pub build_timestamp_date: String,
}

/// What the process environment says, as read at start.
#[derive(Debug, Clone)]
pub struct RuntimeEnv {
    /// The executable, or `.` when it cannot be found.
    pub exe_file: String,
    /// The directory of the executable.
    pub exe_dir: String,
    /// The working directory, or `.` when it cannot be read.
    pub cwd: String,
    /// `TN_ROOT_DIR`, when set.
    pub root_dir_var: Option<String>,
    /// `TN_THEMES_DIR`, when set.
    pub themes_dir_var: Option<String>,
    /// `TN_CONFIG_FILE`, when set.
    pub config_file_var: Option<String>,
    /// `TN_NO_LIMIT`, when set.
    pub no_limit_var: Option<String>,
    /// Whether `INVOCATION_ID` is set.
    pub invocation_id_set: bool,
    /// Whether `JOURNAL_STREAM` is set.
    pub journal_stream_set: bool,
    pub pid: u32,
    pub uid: u32,
    /// Whether the process started with root's effective user id.
    pub initial_root: bool,
    /// Whether the current user is root.
    pub is_root: bool,
    /// Whether the process runs under cargo.
    pub is_cargo: bool,
}

/// The characters of an optional string.
pub open spec fn opt_view(o: Option<String>) -> Option<Seq<char>> {
    match o {
        Some(s) => Some(s@),
        None => None,
    }
}

/// The root directory: `TN_ROOT_DIR` (relative to the working directory
/// unless absolute), else the executable's directory; cleaned.
pub open spec fn root_dir_of(var: Option<Seq<char>>, cwd: Seq<char>, exe_dir: Seq<char>) -> Seq<char> {
    match var {
        Some(v) => cleaned_path(
            if is_absolute(v) {
                v
            } else {
                join_path(cwd, v)
            },
        ),
        None => cleaned_path(exe_dir),
    }
}

/// The themes directory: `TN_THEMES_DIR`, else `themes` under the root;
/// an empty setting gives `themes` under the root as it is, any other is
/// taken relative to the working directory unless absolute, and cleaned.
pub open spec fn themes_dir_of(var: Option<Seq<char>>, cwd: Seq<char>, root: Seq<char>) -> Seq<char> {
    let t = match var {
        Some(v) => v,
        None => join_path(root, "themes"@),
    };
    if t.len() == 0 {
        join_path(root, "themes"@)
    } else {
        cleaned_path(
            if is_absolute(t) {
                t
            } else {
                join_path(cwd, t)
            },
        )
    }
}

/// The configuration file: `TN_CONFIG_FILE`, else `config.yaml` under the
/// root; a setting that is empty or does not end with `.yaml` or `.yml`
/// gives `config.yaml` under the root as it is, any other is taken
/// relative to the working directory unless absolute, and cleaned.
pub open spec fn config_file_of_env(var: Option<Seq<char>>, cwd: Seq<char>, root: Seq<char>) -> Seq<char> {
    let t = match var {
        Some(v) => v,
        None => join_path(root, "config.yaml"@),
    };
    if t.len() == 0 || !(has_suffix(t, ".yaml"@) || has_suffix(t, ".yml"@)) {
        join_path(root, "config.yaml"@)
    } else {
        cleaned_path(
            if is_absolute(t) {
                t
            } else {
                join_path(cwd, t)
            },
        )
    }
}

/// Limits are lifted when `TN_NO_LIMIT`, trimmed, is `1` or, in
/// lowercase, `true`.
pub open spec fn limit_less_of(var: Option<Seq<char>>) -> bool {
    match var {
        Some(v) => lowercase(trim(v)) == "true"@ || trim(v) == "1"@,
        None => false,
    }
}

/// The base name of the datagram sockets: the application name,
/// `/dgram/`, its version, `/` and the user id.
pub open spec fn datagram_base_of(v: RuntimeView) -> Seq<char> {
    v.build.name@ + "/dgram/"@ + v.build.version@ + "/"@ + dec(v.env.uid as nat)
}

/// The control socket: `uid-name.sock` in `/dev/shm`.
pub open spec fn socket_file_of(v: RuntimeView) -> Seq<char> {
    join_path("/dev/shm"@, dec(v.env.uid as nat) + "-"@ + v.build.name@ + ".sock"@)
}

/// The application's view of its process and directories.
#[derive(Debug, Clone)]
pub struct Runtime {
    env: RuntimeEnv,
    build: BuildInfo,
    root_dir: String,
    themes_dir: String,
    config_file: String,
    has_limit_less: bool,
}

/// The derived settings of a runtime.
pub struct RuntimeView {
    pub env: RuntimeEnv,
    pub build: BuildInfo,
    pub root_dir: Seq<char>,
    pub themes_dir: Seq<char>,
    pub config_file: Seq<char>,
    pub has_limit_less: bool,
}

impl View for Runtime {
    type V = RuntimeView;

    closed spec fn view(&self) -> RuntimeView {
        RuntimeView {
            env: self.env,
            build: self.build,
            root_dir: self.root_dir@,
            themes_dir: self.themes_dir@,
            config_file: self.config_file@,
            has_limit_less: self.has_limit_less,
        }
    }
}

/// `.yaml` or `.yml` ends the text.
fn yaml_name(t: &Vec<char>) -> (r: bool)
    ensures
        r == (has_suffix(t@, ".yaml"@) || has_suffix(t@, ".yml"@)),
{
    let a = chars_of(".yaml");
    let b = chars_of(".yml");
    crate::text::ends_with(t, &a) || crate::text::ends_with(t, &b)
}

impl Runtime {
    /// The runtime for an environment and a build.
    pub fn new(env: RuntimeEnv, build: BuildInfo) -> (r: Runtime)
        ensures
            r@.env == env,
            r@.build == build,
            r@.root_dir == root_dir_of(opt_view(env.root_dir_var), env.cwd@, env.exe_dir@),
            r@.themes_dir == themes_dir_of(opt_view(env.themes_dir_var), env.cwd@, r@.root_dir),
            r@.config_file == config_file_of_env(opt_view(env.config_file_var), env.cwd@, r@.root_dir),
            r@.has_limit_less == limit_less_of(opt_view(env.no_limit_var)),
    {
        let root_dir = match &env.root_dir_var {
            Some(v) => {
                let p = chars_of(v.as_str());
                if p.len() > 0 && p[0] == '/' {
                    clean(v.as_str())
                } else {
                    let j = join(env.cwd.as_str(), v.as_str());
                    clean(j.as_str())
                }
            },
            None => clean(env.exe_dir.as_str()),
        };
        let themes_default = join(root_dir.as_str(), "themes");
        let t = match &env.themes_dir_var {
            Some(v) => v.clone(),
            None => themes_default.clone(),
        };
        let tc = chars_of(t.as_str());
        let themes_dir = if tc.len() == 0 {
            themes_default
        } else if tc[0] == '/' {
            clean(t.as_str())
        } else {
            let j = join(env.cwd.as_str(), t.as_str());
            clean(j.as_str())
        };
        let config_default = join(root_dir.as_str(), "config.yaml");
        let c = match &env.config_file_var {
            Some(v) => v.clone(),
            None => config_default.clone(),
        };
        let cc = chars_of(c.as_str());
        let config_file = if cc.len() == 0 || !yaml_name(&cc) {
            config_default
        } else if cc[0] == '/' {
            clean(c.as_str())
        } else {
            let j = join(env.cwd.as_str(), c.as_str());
            clean(j.as_str())
        };
        let has_limit_less = match &env.no_limit_var {
            Some(v) => {
                let cs = chars_of(v.as_str());
                let t = trim_chars(&cs);
                let l = to_lowercase(&t);
                eq_str(&l, "true") || eq_str(&t, "1")
            },
            None => false,
        };
        Runtime { env, build, root_dir, themes_dir, config_file, has_limit_less }
    }

    /// The prefix of the application's environment variables.
    pub fn app_env_prefix() -> (r: &'static str)
        ensures
            r@ == "TN_"@,
    {
        "TN_"
    }

    /// The build's name.
    pub fn app_name(&self) -> (r: &str)
        ensures
            r@ == self@.build.name@,
    {
        self.build.name.as_str()
    }

    /// The build's version.
    pub fn app_version(&self) -> (r: &str)
        ensures
            r@ == self@.build.version@,
    {
        self.build.version.as_str()
    }

    /// The build's description.
    pub fn app_description(&self) -> (r: &str)
        ensures
            r@ == self@.build.description@,
    {
        self.build.description.as_str()
    }

    /// The build's author.
    pub fn app_author(&self) -> (r: &str)
        ensures
            r@ == self@.build.author@,
    {
        self.build.author.as_str()
    }

    /// The build's build timestamp.
    pub fn app_build_timestamp(&self) -> (r: &str)
        ensures
            r@ == self@.build.build_timestamp@,
    {
        self.build.build_timestamp.as_str()
    }

    /// The build's build timestamp date.
    pub fn app_build_timestamp_date(&self) -> (r: &str)
        ensures
            r@ == self@.build.build_timestamp_date@,
    {
        self.build.build_timestamp_date.as_str()
    }

    /// The version and the build date: `version (built date)`.
    pub fn app_version_full(&self) -> (r: String)
        ensures
            r@ == self@.build.version@ + " (built "@ + self@.build.build_timestamp_date@ + ")"@,
    {
        let mut t = chars_of(self.build.version.as_str());
        let a = chars_of(" (built ");
        push_all(&mut t, &a);
        let d = chars_of(self.build.build_timestamp_date.as_str());
        push_all(&mut t, &d);
        let b = chars_of(")");
        push_all(&mut t, &b);
        string_of(&t)
    }

    /// Whether the process started as root.
    pub fn is_initial_root(&self) -> (r: bool)
        ensures
            r == self@.env.initial_root,
    {
        self.env.initial_root
    }

    /// Whether the current user is root.
    pub fn is_root(&self) -> (r: bool)
        ensures
            r == self@.env.is_root,
    {
        self.env.is_root
    }

    /// Whether the process runs under cargo.
    pub fn is_cargo_run(&self) -> (r: bool)
        ensures
            r == self@.env.is_cargo,
    {
        self.env.is_cargo
    }

    /// Whether systemd may have started the process: `INVOCATION_ID` is set.
    pub fn maybe_via_system_d(&self) -> (r: bool)
        ensures
            r == self@.env.invocation_id_set,
    {
        self.env.invocation_id_set
    }

    /// Whether output may go to the journal: `JOURNAL_STREAM` is set.
    pub fn maybe_via_journal(&self) -> (r: bool)
        ensures
            r == self@.env.journal_stream_set,
    {
        self.env.journal_stream_set
    }

    /// Whether the process runs detached: none of its standard streams is a
    /// terminal, the terminal has no foreground process group (`-1`), or
    /// its parent is init (pid 1).
    pub fn is_daemon(any_stream_is_tty: bool, foreground_group: i32, parent_pid: i32) -> (r: bool)
        ensures
            r == (!any_stream_is_tty || foreground_group == -1 || parent_pid == 1),
    {
        !any_stream_is_tty || foreground_group == -1 || parent_pid == 1
    }

    /// The process id.
    pub fn pid(&self) -> (r: u32)
        ensures
            r == self@.env.pid,
    {
        self.env.pid
    }

    /// The executable.
    pub fn exe_file(&self) -> (r: &str)
        ensures
            r@ == self@.env.exe_file@,
    {
        self.env.exe_file.as_str()
    }

    /// The directory of the executable.
    pub fn exe_dir(&self) -> (r: &str)
        ensures
            r@ == self@.env.exe_dir@,
    {
        self.env.exe_dir.as_str()
    }

    /// The working directory.
    pub fn cwd(&self) -> (r: &str)
        ensures
            r@ == self@.env.cwd@,
    {
        self.env.cwd.as_str()
    }

    /// The root directory.
    pub fn root_dir(&self) -> (r: &str)
        ensures
            r@ == self@.root_dir,
    {
        self.root_dir.as_str()
    }

    /// The themes directory.
    pub fn themes_dir(&self) -> (r: &str)
        ensures
            r@ == self@.themes_dir,
    {
        self.themes_dir.as_str()
    }

    /// The configuration file.
    pub fn config_file(&self) -> (r: &str)
        ensures
            r@ == self@.config_file,
    {
        self.config_file.as_str()
    }

    /// Whether limits are lifted.
    pub fn has_limit_less(&self) -> (r: bool)
        ensures
            r == self@.has_limit_less,
    {
        self.has_limit_less
    }

    /// The largest count of a bounded resource: 1048576 when limits are
    /// lifted, else 65535.
    pub fn u16_limitless(&self) -> (r: usize)
        ensures
            r == if self@.has_limit_less {
                1048576usize
            } else {
                65535usize
            },
    {
        if self.has_limit_less {
            1048576
        } else {
            65535
        }
    }

    /// The shared-memory directory.
    pub fn shm_dir() -> (r: &'static str)
        ensures
            r@ == "/dev/shm"@,
    {
        "/dev/shm"
    }

    /// The directory of the control socket: the shared-memory directory.
    pub fn socket_dir() -> (r: &'static str)
        ensures
            r@ == "/dev/shm"@,
    {
        "/dev/shm"
    }

    /// `var` under the root directory.
    pub fn var_dir(&self) -> (r: String)
        ensures
            r@ == join_path(self@.root_dir, "var"@),
    {
        join(self.root_dir.as_str(), "var")
    }

    /// `public` under the root directory.
    pub fn public_dir(&self) -> (r: String)
        ensures
            r@ == join_path(self@.root_dir, "public"@),
    {
        join(self.root_dir.as_str(), "public")
    }

    /// `storage` under the root directory.
    pub fn storage_dir(&self) -> (r: String)
        ensures
            r@ == join_path(self@.root_dir, "storage"@),
    {
        join(self.root_dir.as_str(), "storage")
    }

    /// `modules` under the root directory.
    pub fn modules_dir(&self) -> (r: String)
        ensures
            r@ == join_path(self@.root_dir, "modules"@),
    {
        join(self.root_dir.as_str(), "modules")
    }

    /// `log` under the var directory.
    pub fn log_dir(&self) -> (r: String)
        ensures
            r@ == join_path(join_path(self@.root_dir, "var"@), "log"@),
    {
        let p = self.var_dir();
        join(p.as_str(), "log")
    }

    /// `temp` under the var directory.
    pub fn temp_dir(&self) -> (r: String)
        ensures
            r@ == join_path(join_path(self@.root_dir, "var"@), "temp"@),
    {
        let p = self.var_dir();
        join(p.as_str(), "temp")
    }

    /// `cache` under the var directory.
    pub fn cache_dir(&self) -> (r: String)
        ensures
            r@ == join_path(join_path(self@.root_dir, "var"@), "cache"@),
    {
        let p = self.var_dir();
        join(p.as_str(), "cache")
    }

    /// `lib` under the var directory.
    pub fn lib_dir(&self) -> (r: String)
        ensures
            r@ == join_path(join_path(self@.root_dir, "var"@), "lib"@),
    {
        let p = self.var_dir();
        join(p.as_str(), "lib")
    }

    /// `downloads` under the cache directory.
    pub fn cahe_downloads_dir(&self) -> (r: String)
        ensures
            r@ == join_path(join_path(join_path(self@.root_dir, "var"@), "cache"@), "downloads"@),
    {
        let p = self.cache_dir();
        join(p.as_str(), "downloads")
    }

    /// `acme` under the lib directory.
    pub fn acme_dir(&self) -> (r: String)
        ensures
            r@ == join_path(join_path(join_path(self@.root_dir, "var"@), "lib"@), "acme"@),
    {
        let p = self.lib_dir();
        join(p.as_str(), "acme")
    }

    /// `uploads` under the storage directory.
    pub fn uploads_dir(&self) -> (r: String)
        ensures
            r@ == join_path(join_path(self@.root_dir, "storage"@), "uploads"@),
    {
        let p = self.storage_dir();
        join(p.as_str(), "uploads")
    }

    /// `data` under the storage directory.
    pub fn data_dir(&self) -> (r: String)
        ensures
            r@ == join_path(join_path(self@.root_dir, "storage"@), "data"@),
    {
        let p = self.storage_dir();
        join(p.as_str(), "data")
    }

    /// `uploads` under the temp directory.
    pub fn temp_uploads_dir(&self) -> (r: String)
        ensures
            r@ == join_path(join_path(join_path(self@.root_dir, "var"@), "temp"@), "uploads"@),
    {
        let p = self.temp_dir();
        join(p.as_str(), "uploads")
    }

    /// The base name of the datagram sockets: the application name,
    /// `/dgram/`, its version, `/` and the user id.
    pub fn datagram_base_name(&self) -> (r: String)
        ensures
            r@ == datagram_base_of(self@),
    {
        let mut t = chars_of(self.build.name.as_str());
        let a = chars_of("/dgram/");
        push_all(&mut t, &a);
        let v = chars_of(self.build.version.as_str());
        push_all(&mut t, &v);
        let s = chars_of("/");
        push_all(&mut t, &s);
        let u = fmt_u128(self.env.uid as u128);
        push_all(&mut t, &u);
        string_of(&t)
    }

    /// The identity of this process's datagram client: the base name,
    /// `/client/` and the process id.
    pub fn datagram_client_identity(&self) -> (r: String)
        ensures
            r@ == self@.build.name@ + "/dgram/"@ + self@.build.version@ + "/"@ + dec(
                self@.env.uid as nat,
            ) + "/client/"@ + dec(self@.env.pid as nat),
    {
        let base = self.datagram_base_name();
        let mut t = chars_of(base.as_str());
        let a = chars_of("/client/");
        push_all(&mut t, &a);
        let p = fmt_u128(self.env.pid as u128);
        push_all(&mut t, &p);
        string_of(&t)
    }

    /// The identity of the datagram server: the base name and `/server`.
    pub fn datagram_server_identity(&self) -> (r: String)
        ensures
            r@ == self@.build.name@ + "/dgram/"@ + self@.build.version@ + "/"@ + dec(
                self@.env.uid as nat,
            ) + "/server"@,
    {
        let base = self.datagram_base_name();
        let mut t = chars_of(base.as_str());
        let a = chars_of("/server");
        push_all(&mut t, &a);
        string_of(&t)
    }

    /// The control socket: `uid-name.sock` in the socket directory.
    pub fn socket_file(&self) -> (r: String)
        ensures
            r@ == socket_file_of(self@),
    {
        let mut t = fmt_u128(self.env.uid as u128);
        t.push('-');
        let n = chars_of(self.build.name.as_str());
        push_all(&mut t, &n);
        let e = chars_of(".sock");
        push_all(&mut t, &e);
        let name = string_of(&t);
        assert(name@ == dec(self.env.uid as nat) + "-"@ + self.build.name@ + ".sock"@) by {
            reveal_strlit("-");
            assert(name@ =~= dec(self.env.uid as nat) + "-"@ + self.build.name@ + ".sock"@);
        }
        join("/dev/shm", name.as_str())
    }

    /// The configuration file for a command: the one its own arguments
    /// name, else the one the global arguments name, else the default.
    pub fn config_file_of(&self, global_arg: &ConsoleArguments, local_arg: Option<&ConsoleArguments>) -> (r: String)
        ensures
            r@ == if local_arg is Some && config_view(*local_arg->0) is Some {
                config_view(*local_arg->0)->0
            } else if config_view(*global_arg) is Some {
                config_view(*global_arg)->0
            } else {
                self@.config_file
            },
    {
        if let Some(cfg) = local_arg {
            if let Some(f) = &cfg.config {
                return f.clone();
            }
        }
        match &global_arg.config {
            Some(f) => f.clone(),
            None => self.config_file.clone(),
        }
    }
}

} // verus!
