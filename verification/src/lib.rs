use vstd::prelude::*;

pub mod acl;
pub mod application;
pub mod archive;
pub mod cert_store;
pub mod console;
pub mod commander;
pub mod config;
pub mod cpu_info;
pub mod dns;
pub mod download;
pub mod error;
pub mod events;
pub mod factory;
pub mod hack;
pub mod hooks;
pub mod http_status;
pub mod ip;
pub mod lz4;
pub mod maxmind;
pub mod middleware;
pub mod mounts;
pub mod multipart;
pub mod path;
pub mod proc_stat;
pub mod redis;
pub mod refresh;
pub mod runtime;
pub mod server;
pub mod server_state;
pub mod stats;
pub mod status;
pub mod table;
pub mod text;
pub mod theme;
pub mod theme_files;
pub mod theme_load;
pub mod theme_uri;
pub mod themes;
pub mod tls;
