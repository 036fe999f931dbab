//! The decisions taken when the server starts: whether it may start, where
//! it listens, what becomes of a file left at the socket's place, and to
//! which user a root process hands itself over.
use vstd::prelude::*;

use crate::config::AppConfig;
use crate::error::{Error, ErrorType};
use crate::table::{copy_strings, string_views};
use crate::text::{chars_of, push_all, string_of, text_with};

verus! {

/// Where and how the server listens once started.
#[derive(Debug)]
pub struct StartPlan {
    /// The plain listeners.
    pub binding: Vec<String>,
    /// The TLS listeners; none unless TLS has a key, a certificate and a
    /// listener.
    pub ssl_binding: Vec<String>,
    /// The number of workers, where it is set.
    pub workers: Option<usize>,
}

/// Whether the server may start, and how: `InProgress` while a start is
/// being processed, `AddressInUse` while it runs; else it listens on the plain
/// listeners, on the TLS listeners when TLS has a key, a certificate and a
/// listener, with the configured workers when there are any.
pub fn start_plan(processing: bool, running: bool, app: &AppConfig) -> (r: Result<StartPlan, Error>)
    ensures
        match r {
            Err(e) => if processing {
                e@ == (ErrorType::InProgress, "Server is already processing start"@)
            } else {
                running && e@ == (ErrorType::AddressInUse, "Actix Server is already running"@)
            },
            Ok(p) => !processing && !running && string_views(p.binding@) == string_views(app.tcp@)
                && string_views(p.ssl_binding@) == (if app.ssl.key@.len() > 0 && app.ssl.cert@.len() > 0
                && app.ssl.listen@.len() > 0 {
                string_views(app.ssl.listen@)
            } else {
                Seq::empty()
            }) && p.workers == (if app.workers > 0 {
                Some(app.workers)
            } else {
                None
            }),
        },
{
    if processing {
        return Err(Error::in_progress("Server is already processing start"));
    }
    if running {
        return Err(Error::address_in_use("Actix Server is already running"));
    }
    let binding = copy_strings(&app.tcp);
    assert(string_views(binding@) =~= string_views(app.tcp@));
    let has_ssl = app.ssl.is_ssl_configured();
    let ssl_binding = if has_ssl {
        let b = copy_strings(&app.ssl.listen);
        assert(string_views(b@) =~= string_views(app.ssl.listen@));
        b
    } else {
        let b: Vec<String> = Vec::new();
        assert(string_views(b@) =~= Seq::<Seq<char>>::empty());
        b
    };
    let workers = if app.workers > 0 {
        Some(app.workers)
    } else {
        None
    };
    Ok(StartPlan { binding, ssl_binding, workers })
}

/// What is found at the place of the control socket.
#[derive(Debug, Clone, Copy, PartialEq, Eq, Structural)]
pub enum SocketPlace {
    /// Nothing is there.
    Missing,
    /// A socket, and whether a server answers on it.
    Socket(bool),
    /// A regular file of the given size.
    File(u64),
    /// Something else.
    Other,
}

/// What is done before binding the control socket.
#[derive(Debug, Clone, Copy, PartialEq, Eq, Structural)]
pub enum SocketAction {
    /// The place is free.
    Bind,
    /// A stale socket or an empty file is removed first.
    RemoveThenBind,
}

/// What becomes of the place of the control socket: a socket that a
/// server answers on is `AddressInUse`; a dead socket or an empty file is
/// removed; a file with content is `AlreadyExists`; anything else there is
/// `Unsupported`.
pub fn socket_path_action(socket: &str, place: SocketPlace) -> (r: Result<SocketAction, Error>)
    ensures
        match place {
            SocketPlace::Missing => r == Ok::<SocketAction, Error>(SocketAction::Bind),
            SocketPlace::Socket(live) => if live {
                r matches Err(e) && e@ == (ErrorType::AddressInUse, "Socket "@ + socket@ + " is already in use"@)
            } else {
                r == Ok::<SocketAction, Error>(SocketAction::RemoveThenBind)
            },
            SocketPlace::File(size) => if size > 0 {
                r matches Err(e) && e@ == (
                    ErrorType::AlreadyExists,
                    "File "@ + socket@ + " already exists and is not a socket"@,
                )
            } else {
                r == Ok::<SocketAction, Error>(SocketAction::RemoveThenBind)
            },
            SocketPlace::Other => r matches Err(e) && e@ == (
                ErrorType::Unsupported,
                "Path "@ + socket@ + " already exists and is not a socket"@,
            ),
        },
{
    let s = chars_of(socket);
    match place {
        SocketPlace::Missing => Ok(SocketAction::Bind),
        SocketPlace::Socket(live) => if live {
            let mut t = chars_of("Socket ");
            push_all(&mut t, &s);
            let tail = chars_of(" is already in use");
            push_all(&mut t, &tail);
            Err(Error { error_type: ErrorType::AddressInUse, message: string_of(&t) })
        } else {
            Ok(SocketAction::RemoveThenBind)
        },
        SocketPlace::File(size) => if size > 0 {
            let mut t = chars_of("File ");
            push_all(&mut t, &s);
            let tail = chars_of(" already exists and is not a socket");
            push_all(&mut t, &tail);
            Err(Error { error_type: ErrorType::AlreadyExists, message: string_of(&t) })
        } else {
            Ok(SocketAction::RemoveThenBind)
        },
        SocketPlace::Other => {
            let mut t = chars_of("Path ");
            push_all(&mut t, &s);
            let tail = chars_of(" already exists and is not a socket");
            push_all(&mut t, &tail);
            Err(Error { error_type: ErrorType::Unsupported, message: string_of(&t) })
        },
    }
}

/// A user of the system: name, user id and group id.
#[derive(Debug, Clone)]
pub struct UserEntry {
    pub name: String,
    pub uid: u32,
    pub gid: u32,
}

/// To whom a process hands itself over, from whether it runs as root and
/// what the lookup of the configured user gave (its error text, or the
/// user if there is one): `None` when it does not run as root; the user's
/// group and user id otherwise; `InvalidData` when the lookup failed, the
/// user does not exist, or the user is root.
pub fn drop_privilege_target(running_as_root: bool, user: &str, lookup: Result<Option<UserEntry>, String>) -> (r: Result<
    Option<(u32, u32)>,
    Error,
>)
    ensures
        !running_as_root ==> r == Ok::<Option<(u32, u32)>, Error>(None),
        running_as_root ==> match lookup {
            Err(t) => r matches Err(e) && e@ == (
                ErrorType::InvalidData,
                "Failed to retrieve user information for '"@ + user@ + "': "@ + t@,
            ),
            Ok(None) => r matches Err(e) && e@ == (
                ErrorType::InvalidData,
                "User '"@ + user@ + "' not found on the system."@,
            ),
            Ok(Some(u)) => if u.uid == 0 {
                r matches Err(e) && e@ == (ErrorType::InvalidData, "User '"@ + u.name@ + "' cannot be root."@)
            } else {
                r == Ok::<Option<(u32, u32)>, Error>(Some((u.gid, u.uid)))
            },
        },
{
    if !running_as_root {
        return Ok(None);
    }
    let name = chars_of(user);
    match lookup {
        Err(t) => {
            let mut m = chars_of("Failed to retrieve user information for '");
            push_all(&mut m, &name);
            let mid = chars_of("': ");
            push_all(&mut m, &mid);
            let tc = chars_of(t.as_str());
            push_all(&mut m, &tc);
            Err(Error { error_type: ErrorType::InvalidData, message: string_of(&m) })
        },
        Ok(None) => {
            let mut m = chars_of("User '");
            push_all(&mut m, &name);
            let tail = chars_of("' not found on the system.");
            push_all(&mut m, &tail);
            Err(Error { error_type: ErrorType::InvalidData, message: string_of(&m) })
        },
        Ok(Some(u)) => if u.uid == 0 {
            let mut m = chars_of("User '");
            let un = chars_of(u.name.as_str());
            push_all(&mut m, &un);
            let tail = chars_of("' cannot be root.");
            push_all(&mut m, &tail);
            Err(Error { error_type: ErrorType::InvalidData, message: string_of(&m) })
        } else {
            Ok(Some((u.gid, u.uid)))
        },
    }
}

} // verus!
