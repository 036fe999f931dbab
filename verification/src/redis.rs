//! Redis connection settings: defaults, the limits that settings are
//! brought within, and the connection URL.
use vstd::prelude::*;

use crate::error::{Error, ErrorType};
use crate::text::{chars_of, dec, fmt_u128, push_all, string_empty, string_of};

verus! {

/// The highest database number.
pub const MAX_REDIS_DB: usize = 16;

/// The default host.
pub const DEFAULT_REDIS_PORT: u16 = 6379;

/// The default number of pooled connections.
pub const DEFAULT_REDIS_POOL: usize = 10;

/// The fewest pooled connections.
pub const MIN_REDIS_POOL: usize = 1;

/// The most pooled connections.
pub const MAX_REDIS_POOL: usize = 128;

/// The default number of idle connections kept.
pub const DEFAULT_REDIS_MIN_IDLE_CONNECTIONS: usize = 1;

/// The most idle connections kept.
pub const MAX_REDIS_MIN_IDLE_CONNECTIONS: usize = 64;

/// The default idle timeout, in seconds.
pub const DEFAULT_REDIS_IDLE_TIMEOUT: usize = 600;

/// The shortest idle timeout, in seconds.
pub const MIN_REDIS_IDLE_TIMEOUT: usize = 1;

/// The longest idle timeout, in seconds: a day.
pub const MAX_REDIS_IDLE_TIMEOUT: usize = 86400;

/// The default connect timeout, in seconds.
pub const DEFAULT_REDIS_CONNECT_TIMEOUT: usize = 5;

/// The `redis::ConnectionInfo` type, carried through opaquely.
#[verifier::external_type_specification]
#[verifier::external_body]
pub struct ExConnectionInfo(redis::ConnectionInfo);

/// The `redis::RedisError` type, carried through opaquely.
#[verifier::external_type_specification]
#[verifier::external_body]
pub struct ExRedisError(redis::RedisError);

/// Whether `redis` accepts a URL as connection settings.
pub uninterp spec fn redis_accepts(url: Seq<char>) -> bool;

/// `IntoConnectionInfo::into_connection_info` of `redis` for a `String`:
/// it succeeds exactly when `redis` accepts the URL (named
/// `redis_accepts`). A URL that starts with `@` or `:` has no scheme, so
/// `url::Url::parse` refuses it and so does `redis`. What the settings
/// hold is not stated.
#[verifier::external_body]
fn connection_info_of(url: String) -> (r: Result<redis::ConnectionInfo, redis::RedisError>)
    ensures
        r is Ok == redis_accepts(url@),
        url@.len() > 0 && (url@[0] == '@' || url@[0] == ':') ==> r is Err,
{
    redis::IntoConnectionInfo::into_connection_info(url)
}

/// The text of a `redis` error (`ToString::to_string`); nothing is claimed
/// of it.
#[verifier::external_body]
fn redis_error_text(e: &redis::RedisError) -> String {
    e.to_string()
}

/// Settings of a Redis connection pool.
#[derive(Debug, Clone)]
pub struct RedisConfig {
    pub host: String,
    pub unix_socket: String,
    pub port: u16,
    pub username: String,
    pub password: String,
    pub database: usize,
    pub max_pools: usize,
    pub minimum_idle_connections: usize,
    pub idle_timeout: usize,
    pub connect_timeout: usize,
}

/// `RedisConfig` with its texts as characters.
pub struct RedisView {
    pub host: Seq<char>,
    pub unix_socket: Seq<char>,
    pub port: u16,
    pub username: Seq<char>,
    pub password: Seq<char>,
    pub database: usize,
    pub max_pools: usize,
    pub minimum_idle_connections: usize,
    pub idle_timeout: usize,
    pub connect_timeout: usize,
}

impl View for RedisConfig {
    type V = RedisView;

    open spec fn view(&self) -> RedisView {
        RedisView {
            host: self.host@,
            unix_socket: self.unix_socket@,
            port: self.port,
            username: self.username@,
            password: self.password@,
            database: self.database,
            max_pools: self.max_pools,
            minimum_idle_connections: self.minimum_idle_connections,
            idle_timeout: self.idle_timeout,
            connect_timeout: self.connect_timeout,
        }
    }
}

/// The settings brought within their limits: an empty host becomes
/// `localhost`, port 0 becomes 6379, the database is at most 16, the pool
/// holds 1 to 128 connections, at most 64 idle connections are kept and
/// the idle timeout is between a second and a day. The connect timeout is
/// kept as it is.
pub open spec fn reconfigured(c: RedisView) -> RedisView {
    RedisView {
        host: if c.host.len() == 0 {
            "localhost"@
        } else {
            c.host
        },
        port: if c.port == 0 {
            6379
        } else {
            c.port
        },
        database: if c.database > 16 {
            16
        } else {
            c.database
        },
        max_pools: if c.max_pools > 128 {
            128
        } else if c.max_pools < 1 {
            1
        } else {
            c.max_pools
        },
        minimum_idle_connections: if c.minimum_idle_connections > 64 {
            64
        } else {
            c.minimum_idle_connections
        },
        idle_timeout: if c.idle_timeout > 86400 {
            86400
        } else if c.idle_timeout < 1 {
            1
        } else {
            c.idle_timeout
        },
        ..c
    }
}

/// The URL handed to `redis`: `unix://` and the socket path when there is
/// one; otherwise `@user:password`, or `:password` when there is a
/// password but no user, or `@host:port` when there is neither, and then
/// `/` and the database number.
pub open spec fn connection_url(c: RedisView) -> Seq<char> {
    if c.unix_socket.len() > 0 {
        "unix://"@ + c.unix_socket
    } else {
        (if c.username.len() > 0 {
            "@"@ + c.username + ":"@ + c.password
        } else if c.password.len() > 0 {
            ":"@ + c.password
        } else {
            "@"@ + c.host + ":"@ + dec(c.port as nat)
        }) + "/"@ + dec(c.database as nat)
    }
}

/// The settings as they are read from a configuration file, every field
/// defaulting to empty or zero.
#[derive(Debug, Clone)]
pub struct RedisShadow {
    pub host: String,
    pub unix_socket: String,
    pub port: u16,
    pub username: String,
    pub password: String,
    pub database: usize,
    pub max_pools: usize,
    pub minimum_idle_connections: usize,
    pub idle_timeout: usize,
    pub connect_timeout: usize,
}

impl Default for RedisConfig {
    /// `localhost:6379`, database 0, no credentials and no socket, a pool
    /// of 10 keeping 1 idle connection, a 600 s idle timeout and a 5 s
    /// connect timeout.
    fn default() -> (r: RedisConfig)
        ensures
            r@.host == "localhost"@,
            r@.unix_socket == Seq::<char>::empty(),
            r@.port == 6379,
            r@.username == Seq::<char>::empty(),
            r@.password == Seq::<char>::empty(),
            r@.database == 0,
            r@.max_pools == 10,
            r@.minimum_idle_connections == 1,
            r@.idle_timeout == 600,
            r@.connect_timeout == 5,
    {
        let h = chars_of("localhost");
        RedisConfig {
            unix_socket: String::new(),
            host: string_of(&h),
            port: DEFAULT_REDIS_PORT,
            username: String::new(),
            password: String::new(),
            database: 0,
            max_pools: DEFAULT_REDIS_POOL,
            minimum_idle_connections: DEFAULT_REDIS_MIN_IDLE_CONNECTIONS,
            idle_timeout: DEFAULT_REDIS_IDLE_TIMEOUT,
            connect_timeout: DEFAULT_REDIS_CONNECT_TIMEOUT,
        }
    }
}

impl RedisConfig {
    /// Brings the settings within their limits.
    pub fn reconfigure(&mut self)
        ensures
            final(self)@ == reconfigured(old(self)@),
    {
        if string_empty(&self.host) {
            let h = chars_of("localhost");
            self.host = string_of(&h);
        }
        if self.port == 0 {
            self.port = DEFAULT_REDIS_PORT;
        }
        if self.database > MAX_REDIS_DB {
            self.database = MAX_REDIS_DB;
        }
        if self.max_pools > MAX_REDIS_POOL {
            self.max_pools = MAX_REDIS_POOL;
        } else if self.max_pools < MIN_REDIS_POOL {
            self.max_pools = MIN_REDIS_POOL;
        }
        if self.minimum_idle_connections > MAX_REDIS_MIN_IDLE_CONNECTIONS {
            self.minimum_idle_connections = MAX_REDIS_MIN_IDLE_CONNECTIONS;
        }
        if self.idle_timeout > MAX_REDIS_IDLE_TIMEOUT {
            self.idle_timeout = MAX_REDIS_IDLE_TIMEOUT;
        } else if self.idle_timeout < MIN_REDIS_IDLE_TIMEOUT {
            self.idle_timeout = MIN_REDIS_IDLE_TIMEOUT;
        }
    }

    /// The settings read from a configuration file, brought within their
    /// limits.
    pub fn deserialize(shadow: RedisShadow) -> (r: RedisConfig)
        ensures
            r@ == reconfigured(
                RedisView {
                    host: shadow.host@,
                    unix_socket: shadow.unix_socket@,
                    port: shadow.port,
                    username: shadow.username@,
                    password: shadow.password@,
                    database: shadow.database,
                    max_pools: shadow.max_pools,
                    minimum_idle_connections: shadow.minimum_idle_connections,
                    idle_timeout: shadow.idle_timeout,
                    connect_timeout: shadow.connect_timeout,
                },
            ),
    {
        let mut config = RedisConfig {
            host: shadow.host,
            unix_socket: shadow.unix_socket,
            port: shadow.port,
            username: shadow.username,
            password: shadow.password,
            database: shadow.database,
            max_pools: shadow.max_pools,
            minimum_idle_connections: shadow.minimum_idle_connections,
            idle_timeout: shadow.idle_timeout,
            connect_timeout: shadow.connect_timeout,
        };
        config.reconfigure();
        config
    }

    /// The URL that the settings are handed to `redis` as.
    pub fn connection_url(&self) -> (r: String)
        ensures
            r@ == connection_url(self@),
    {
        let mut t: Vec<char>;
        if !string_empty(&self.unix_socket) {
            t = chars_of("unix://");
            let s = chars_of(self.unix_socket.as_str());
            push_all(&mut t, &s);
        } else {
            if !string_empty(&self.username) {
                t = chars_of("@");
                let u = chars_of(self.username.as_str());
                push_all(&mut t, &u);
                t.push(':');
                let p = chars_of(self.password.as_str());
                push_all(&mut t, &p);
            } else if !string_empty(&self.password) {
                t = chars_of(":");
                let p = chars_of(self.password.as_str());
                push_all(&mut t, &p);
            } else {
                t = chars_of("@");
                let h = chars_of(self.host.as_str());
                push_all(&mut t, &h);
                t.push(':');
                let n = fmt_u128(self.port as u128);
                push_all(&mut t, &n);
            }
            t.push('/');
            let d = fmt_u128(self.database as u128);
            push_all(&mut t, &d);
            proof {
                reveal_strlit(":");
                reveal_strlit("/");
            }
        }
        string_of(&t)
    }

    /// The connection settings that `redis` makes of the URL; when it
    /// refuses the URL, an `Other` error with the text of its error.
    pub fn to_connection_info(&self) -> (r: Result<redis::ConnectionInfo, Error>)
        ensures
            r is Ok == redis_accepts(connection_url(self@)),
            r matches Err(e) ==> e.error_type == ErrorType::Other,
    {
        let url = self.connection_url();
        match connection_info_of(url) {
            Ok(info) => Ok(info),
            Err(e) => {
                let text = redis_error_text(&e);
                Err(Error { error_type: ErrorType::Other, message: text })
            },
        }
    }
}

/// Bringing settings within their limits a second time changes nothing.
pub proof fn lemma_reconfigure_idempotent(c: RedisView)
    ensures
        reconfigured(reconfigured(c)) == reconfigured(c),
{
    reveal_strlit("localhost");
}

/// After settings are brought within their limits, each lies within its
/// limit.
pub proof fn lemma_reconfigured_in_limits(c: RedisView)
    ensures
        reconfigured(c).host.len() > 0,
        reconfigured(c).port != 0,
        reconfigured(c).database <= 16,
        1 <= reconfigured(c).max_pools <= 128,
        reconfigured(c).minimum_idle_connections <= 64,
        1 <= reconfigured(c).idle_timeout <= 86400,
        reconfigured(c).connect_timeout == c.connect_timeout,
{
    reveal_strlit("localhost");
}

/// Settings already within their limits are kept as they are.
pub proof fn lemma_reconfigure_keeps_valid(c: RedisView)
    requires
        c.host.len() > 0,
        c.port != 0,
        c.database <= 16,
        1 <= c.max_pools <= 128,
        c.minimum_idle_connections <= 64,
        1 <= c.idle_timeout <= 86400,
    ensures
        reconfigured(c) == c,
{
}

/// Without a socket path or credentials, the URL starts with `@`, so
/// `redis` refuses it.
pub proof fn lemma_tcp_url_without_credentials(c: RedisView)
    requires
        c.unix_socket.len() == 0,
        c.username.len() == 0,
        c.password.len() == 0,
    ensures
        connection_url(c).len() > 0,
        connection_url(c)[0] == '@',
{
    reveal_strlit("@");
}

} // verus!
