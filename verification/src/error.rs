//! The error type of this library and how errors map to HTTP statuses.
use vstd::prelude::*;

use crate::http_status::HttpStatus;
use crate::text::{chars_of, chars_eq};

verus! {

/// The kinds of error that the library reports.
#[derive(Debug, Clone, Copy, PartialEq, Eq, Hash, Structural)]
pub enum ErrorType {
    FileNotFound,
    AddressInUse,
    DeadLock,
    NotFound,
    PermissionDenied,
    ConnectionRefused,
    ConnectionReset,
    HostUnreachable,
    NetworkUnreachable,
    ConnectionAborted,
    NotConnected,
    AddrInUse,
    AddrNotAvailable,
    NetworkDown,
    BrokenPipe,
    AlreadyExists,
    WouldBlock,
    NotADirectory,
    IsADirectory,
    DirectoryNotEmpty,
    ReadOnlyFilesystem,
    FilesystemLoop,
    StaleNetworkFileHandle,
    InvalidInput,
    InvalidUrl,
    InvalidData,
    TimedOut,
    WriteZero,
    StorageFull,
    NotSeekable,
    QuotaExceeded,
    FileTooLarge,
    ResourceBusy,
    ExecutableFileBusy,
    CrossesDevices,
    TooManyLinks,
    InvalidFilename,
    ArgumentListTooLong,
    Interrupted,
    Unsupported,
    ResourceUnavailable,
    UnexpectedEof,
    OutOfMemory,
    InProgress,
    Other,
    Uncategorized,
    TlsHandshakeFailed,
    AcmeChallengeFailed,
    CertExpired,
    InvalidConfig,
    Parse,
    Encoding,
    Overflow,
    InvalidRange,
    InvalidLength,
    BufferOverflow,
    ChannelClosed,
    AlreadyRunning,
    RenderError,
    FileExists,
    ConversionFailed,
    InvalidState,
    Expired,
    Future,
}

/// The HTTP status that answers each kind of error.
pub open spec fn error_status(e: ErrorType) -> HttpStatus {
    match e {
        ErrorType::FileNotFound => HttpStatus::NotFound,
        ErrorType::AddressInUse => HttpStatus::Conflict,
        ErrorType::DeadLock => HttpStatus::InternalServerError,
        ErrorType::NotFound => HttpStatus::NotFound,
        ErrorType::PermissionDenied => HttpStatus::Forbidden,
        ErrorType::ConnectionRefused => HttpStatus::BadGateway,
        ErrorType::ConnectionReset => HttpStatus::BadGateway,
        ErrorType::HostUnreachable => HttpStatus::BadGateway,
        ErrorType::NetworkUnreachable => HttpStatus::BadGateway,
        ErrorType::ConnectionAborted => HttpStatus::BadGateway,
        ErrorType::NotConnected => HttpStatus::BadGateway,
        ErrorType::AddrInUse => HttpStatus::Conflict,
        ErrorType::AddrNotAvailable => HttpStatus::BadGateway,
        ErrorType::NetworkDown => HttpStatus::BadGateway,
        ErrorType::BrokenPipe => HttpStatus::BadGateway,
        ErrorType::AlreadyExists => HttpStatus::Conflict,
        ErrorType::WouldBlock => HttpStatus::ServiceUnavailable,
        ErrorType::NotADirectory => HttpStatus::NotFound,
        ErrorType::IsADirectory => HttpStatus::InternalServerError,
        ErrorType::DirectoryNotEmpty => HttpStatus::Conflict,
        ErrorType::ReadOnlyFilesystem => HttpStatus::Forbidden,
        ErrorType::FilesystemLoop => HttpStatus::InternalServerError,
        ErrorType::StaleNetworkFileHandle => HttpStatus::InternalServerError,
        ErrorType::InvalidInput => HttpStatus::BadRequest,
        ErrorType::InvalidUrl => HttpStatus::BadRequest,
        ErrorType::InvalidData => HttpStatus::BadRequest,
        ErrorType::TimedOut => HttpStatus::RequestTimeout,
        ErrorType::WriteZero => HttpStatus::InternalServerError,
        ErrorType::StorageFull => HttpStatus::InsufficientStorage,
        ErrorType::NotSeekable => HttpStatus::InternalServerError,
        ErrorType::QuotaExceeded => HttpStatus::TooManyRequests,
        ErrorType::FileTooLarge => HttpStatus::RequestEntityTooLarge,
        ErrorType::ResourceBusy => HttpStatus::ServiceUnavailable,
        ErrorType::ExecutableFileBusy => HttpStatus::ServiceUnavailable,
        ErrorType::CrossesDevices => HttpStatus::InternalServerError,
        ErrorType::TooManyLinks => HttpStatus::InternalServerError,
        ErrorType::InvalidFilename => HttpStatus::BadRequest,
        ErrorType::ArgumentListTooLong => HttpStatus::BadRequest,
        ErrorType::Interrupted => HttpStatus::InternalServerError,
        ErrorType::Unsupported => HttpStatus::NotImplemented,
        ErrorType::ResourceUnavailable => HttpStatus::ServiceUnavailable,
        ErrorType::UnexpectedEof => HttpStatus::BadRequest,
        ErrorType::OutOfMemory => HttpStatus::InternalServerError,
        ErrorType::InProgress => HttpStatus::ServiceUnavailable,
        ErrorType::Other => HttpStatus::InternalServerError,
        ErrorType::Uncategorized => HttpStatus::InternalServerError,
        ErrorType::TlsHandshakeFailed => HttpStatus::BadGateway,
        ErrorType::AcmeChallengeFailed => HttpStatus::BadGateway,
        ErrorType::CertExpired => HttpStatus::BadGateway,
        ErrorType::InvalidConfig => HttpStatus::BadRequest,
        ErrorType::Parse => HttpStatus::BadRequest,
        ErrorType::Encoding => HttpStatus::BadRequest,
        ErrorType::Overflow => HttpStatus::BadRequest,
        ErrorType::InvalidRange => HttpStatus::BadRequest,
        ErrorType::InvalidLength => HttpStatus::BadRequest,
        ErrorType::BufferOverflow => HttpStatus::RequestEntityTooLarge,
        ErrorType::ChannelClosed => HttpStatus::InternalServerError,
        ErrorType::AlreadyRunning => HttpStatus::Conflict,
        ErrorType::RenderError => HttpStatus::InternalServerError,
        ErrorType::FileExists => HttpStatus::Conflict,
        ErrorType::ConversionFailed => HttpStatus::InternalServerError,
        ErrorType::InvalidState => HttpStatus::InternalServerError,
        ErrorType::Expired => HttpStatus::InternalServerError,
        ErrorType::Future => HttpStatus::InternalServerError,
    }
}

/// The kind of error that an HTTP status number stands for.
pub open spec fn error_of_status(status: u16) -> ErrorType {
    match status {
        400 => ErrorType::InvalidInput,
        401 => ErrorType::PermissionDenied,
        403 => ErrorType::PermissionDenied,
        404 => ErrorType::NotFound,
        405 => ErrorType::Unsupported,
        408 => ErrorType::TimedOut,
        409 => ErrorType::AlreadyExists,
        413 => ErrorType::FileTooLarge,
        415 => ErrorType::Unsupported,
        422 => ErrorType::InvalidData,
        429 => ErrorType::QuotaExceeded,
        500 => ErrorType::Other,
        501 => ErrorType::Unsupported,
        502 => ErrorType::ConnectionRefused,
        503 => ErrorType::ResourceUnavailable,
        504 => ErrorType::TimedOut,
        507 => ErrorType::StorageFull,
        _ => if 400 <= status <= 499 {
            ErrorType::InvalidInput
        } else if 500 <= status <= 599 {
            ErrorType::Uncategorized
        } else {
            ErrorType::Other
        },
    }
}

/// The kind of error for the `Debug` name of an I/O error kind.
pub open spec fn error_of_io_kind(name: Seq<char>) -> ErrorType {
    if name == "NotFound"@ {
        ErrorType::NotFound
    } else if name == "PermissionDenied"@ {
        ErrorType::PermissionDenied
    } else if name == "ConnectionRefused"@ {
        ErrorType::ConnectionRefused
    } else if name == "ConnectionReset"@ {
        ErrorType::ConnectionReset
    } else if name == "HostUnreachable"@ {
        ErrorType::HostUnreachable
    } else if name == "NetworkUnreachable"@ {
        ErrorType::NetworkUnreachable
    } else if name == "ConnectionAborted"@ {
        ErrorType::ConnectionAborted
    } else if name == "NotConnected"@ {
        ErrorType::NotConnected
    } else if name == "AddrInUse"@ {
        ErrorType::AddrInUse
    } else if name == "AddrNotAvailable"@ {
        ErrorType::AddrNotAvailable
    } else if name == "NetworkDown"@ {
        ErrorType::NetworkDown
    } else if name == "BrokenPipe"@ {
        ErrorType::BrokenPipe
    } else if name == "AlreadyExists"@ {
        ErrorType::AlreadyExists
    } else if name == "WouldBlock"@ {
        ErrorType::WouldBlock
    } else if name == "NotADirectory"@ {
        ErrorType::NotADirectory
    } else if name == "IsADirectory"@ {
        ErrorType::IsADirectory
    } else if name == "DirectoryNotEmpty"@ {
        ErrorType::DirectoryNotEmpty
    } else if name == "ReadOnlyFilesystem"@ {
        ErrorType::ReadOnlyFilesystem
    } else if name == "StaleNetworkFileHandle"@ {
        ErrorType::StaleNetworkFileHandle
    } else if name == "InvalidInput"@ {
        ErrorType::InvalidInput
    } else if name == "InvalidData"@ {
        ErrorType::InvalidData
    } else if name == "TimedOut"@ {
        ErrorType::TimedOut
    } else if name == "WriteZero"@ {
        ErrorType::WriteZero
    } else if name == "StorageFull"@ {
        ErrorType::StorageFull
    } else if name == "NotSeekable"@ {
        ErrorType::NotSeekable
    } else if name == "QuotaExceeded"@ {
        ErrorType::QuotaExceeded
    } else if name == "FileTooLarge"@ {
        ErrorType::FileTooLarge
    } else if name == "ResourceBusy"@ {
        ErrorType::ResourceBusy
    } else if name == "ExecutableFileBusy"@ {
        ErrorType::ExecutableFileBusy
    } else if name == "Deadlock"@ {
        ErrorType::DeadLock
    } else if name == "CrossesDevices"@ {
        ErrorType::CrossesDevices
    } else if name == "TooManyLinks"@ {
        ErrorType::TooManyLinks
    } else if name == "InvalidFilename"@ {
        ErrorType::InvalidFilename
    } else if name == "ArgumentListTooLong"@ {
        ErrorType::ArgumentListTooLong
    } else if name == "Interrupted"@ {
        ErrorType::Interrupted
    } else if name == "Unsupported"@ {
        ErrorType::Unsupported
    } else if name == "UnexpectedEof"@ {
        ErrorType::UnexpectedEof
    } else if name == "OutOfMemory"@ {
        ErrorType::OutOfMemory
    } else if name == "Other"@ {
        ErrorType::Other
    } else if name == "FilesystemLoop"@ {
        ErrorType::FilesystemLoop
    } else if name == "InProgress"@ {
        ErrorType::InProgress
    } else if name == "Uncategorized"@ {
        ErrorType::Uncategorized
    } else {
        ErrorType::Other
    }
}

impl ErrorType {
    /// The HTTP status that answers this kind of error.
    pub fn to_http_status(&self) -> (r: HttpStatus)
        ensures
            r == error_status(*self),
    {
        match self {
            ErrorType::FileNotFound => HttpStatus::NotFound,
            ErrorType::AddressInUse => HttpStatus::Conflict,
            ErrorType::DeadLock => HttpStatus::InternalServerError,
            ErrorType::NotFound => HttpStatus::NotFound,
            ErrorType::PermissionDenied => HttpStatus::Forbidden,
            ErrorType::ConnectionRefused => HttpStatus::BadGateway,
            ErrorType::ConnectionReset => HttpStatus::BadGateway,
            ErrorType::HostUnreachable => HttpStatus::BadGateway,
            ErrorType::NetworkUnreachable => HttpStatus::BadGateway,
            ErrorType::ConnectionAborted => HttpStatus::BadGateway,
            ErrorType::NotConnected => HttpStatus::BadGateway,
            ErrorType::AddrInUse => HttpStatus::Conflict,
            ErrorType::AddrNotAvailable => HttpStatus::BadGateway,
            ErrorType::NetworkDown => HttpStatus::BadGateway,
            ErrorType::BrokenPipe => HttpStatus::BadGateway,
            ErrorType::AlreadyExists => HttpStatus::Conflict,
            ErrorType::WouldBlock => HttpStatus::ServiceUnavailable,
            ErrorType::NotADirectory => HttpStatus::NotFound,
            ErrorType::IsADirectory => HttpStatus::InternalServerError,
            ErrorType::DirectoryNotEmpty => HttpStatus::Conflict,
            ErrorType::ReadOnlyFilesystem => HttpStatus::Forbidden,
            ErrorType::FilesystemLoop => HttpStatus::InternalServerError,
            ErrorType::StaleNetworkFileHandle => HttpStatus::InternalServerError,
            ErrorType::InvalidInput => HttpStatus::BadRequest,
            ErrorType::InvalidUrl => HttpStatus::BadRequest,
            ErrorType::InvalidData => HttpStatus::BadRequest,
            ErrorType::TimedOut => HttpStatus::RequestTimeout,
            ErrorType::WriteZero => HttpStatus::InternalServerError,
            ErrorType::StorageFull => HttpStatus::InsufficientStorage,
            ErrorType::NotSeekable => HttpStatus::InternalServerError,
            ErrorType::QuotaExceeded => HttpStatus::TooManyRequests,
            ErrorType::FileTooLarge => HttpStatus::RequestEntityTooLarge,
            ErrorType::ResourceBusy => HttpStatus::ServiceUnavailable,
            ErrorType::ExecutableFileBusy => HttpStatus::ServiceUnavailable,
            ErrorType::CrossesDevices => HttpStatus::InternalServerError,
            ErrorType::TooManyLinks => HttpStatus::InternalServerError,
            ErrorType::InvalidFilename => HttpStatus::BadRequest,
            ErrorType::ArgumentListTooLong => HttpStatus::BadRequest,
            ErrorType::Interrupted => HttpStatus::InternalServerError,
            ErrorType::Unsupported => HttpStatus::NotImplemented,
            ErrorType::ResourceUnavailable => HttpStatus::ServiceUnavailable,
            ErrorType::UnexpectedEof => HttpStatus::BadRequest,
            ErrorType::OutOfMemory => HttpStatus::InternalServerError,
            ErrorType::InProgress => HttpStatus::ServiceUnavailable,
            ErrorType::Other => HttpStatus::InternalServerError,
            ErrorType::Uncategorized => HttpStatus::InternalServerError,
            ErrorType::TlsHandshakeFailed => HttpStatus::BadGateway,
            ErrorType::AcmeChallengeFailed => HttpStatus::BadGateway,
            ErrorType::CertExpired => HttpStatus::BadGateway,
            ErrorType::InvalidConfig => HttpStatus::BadRequest,
            ErrorType::Parse => HttpStatus::BadRequest,
            ErrorType::Encoding => HttpStatus::BadRequest,
            ErrorType::Overflow => HttpStatus::BadRequest,
            ErrorType::InvalidRange => HttpStatus::BadRequest,
            ErrorType::InvalidLength => HttpStatus::BadRequest,
            ErrorType::BufferOverflow => HttpStatus::RequestEntityTooLarge,
            ErrorType::ChannelClosed => HttpStatus::InternalServerError,
            ErrorType::AlreadyRunning => HttpStatus::Conflict,
            ErrorType::RenderError => HttpStatus::InternalServerError,
            ErrorType::FileExists => HttpStatus::Conflict,
            ErrorType::ConversionFailed => HttpStatus::InternalServerError,
            ErrorType::InvalidState => HttpStatus::InternalServerError,
            ErrorType::Expired => HttpStatus::InternalServerError,
            ErrorType::Future => HttpStatus::InternalServerError,
        }
    }

    /// The kind of error that an HTTP status number stands for.
    pub fn from_http_status(status: u16) -> (r: ErrorType)
        ensures
            r == error_of_status(status),
    {
        match status {
            400 => ErrorType::InvalidInput,
            401 => ErrorType::PermissionDenied,
            403 => ErrorType::PermissionDenied,
            404 => ErrorType::NotFound,
            405 => ErrorType::Unsupported,
            408 => ErrorType::TimedOut,
            409 => ErrorType::AlreadyExists,
            413 => ErrorType::FileTooLarge,
            415 => ErrorType::Unsupported,
            422 => ErrorType::InvalidData,
            429 => ErrorType::QuotaExceeded,
            500 => ErrorType::Other,
            501 => ErrorType::Unsupported,
            502 => ErrorType::ConnectionRefused,
            503 => ErrorType::ResourceUnavailable,
            504 => ErrorType::TimedOut,
            507 => ErrorType::StorageFull,
            _ => if 400 <= status && status <= 499 {
                ErrorType::InvalidInput
            } else if 500 <= status && status <= 599 {
                ErrorType::Uncategorized
            } else {
                ErrorType::Other
            },
        }
    }

    /// The kind of error for the `Debug` name of an I/O error kind.
    pub fn from_io_kind_name(name: &[char]) -> (r: ErrorType)
        ensures
            r == error_of_io_kind(name@),
    {
        if crate::text::eq_str(name, "NotFound") {
            ErrorType::NotFound
        } else if crate::text::eq_str(name, "PermissionDenied") {
            ErrorType::PermissionDenied
        } else if crate::text::eq_str(name, "ConnectionRefused") {
            ErrorType::ConnectionRefused
        } else if crate::text::eq_str(name, "ConnectionReset") {
            ErrorType::ConnectionReset
        } else if crate::text::eq_str(name, "HostUnreachable") {
            ErrorType::HostUnreachable
        } else if crate::text::eq_str(name, "NetworkUnreachable") {
            ErrorType::NetworkUnreachable
        } else if crate::text::eq_str(name, "ConnectionAborted") {
            ErrorType::ConnectionAborted
        } else if crate::text::eq_str(name, "NotConnected") {
            ErrorType::NotConnected
        } else if crate::text::eq_str(name, "AddrInUse") {
            ErrorType::AddrInUse
        } else if crate::text::eq_str(name, "AddrNotAvailable") {
            ErrorType::AddrNotAvailable
        } else if crate::text::eq_str(name, "NetworkDown") {
            ErrorType::NetworkDown
        } else if crate::text::eq_str(name, "BrokenPipe") {
            ErrorType::BrokenPipe
        } else if crate::text::eq_str(name, "AlreadyExists") {
            ErrorType::AlreadyExists
        } else if crate::text::eq_str(name, "WouldBlock") {
            ErrorType::WouldBlock
        } else if crate::text::eq_str(name, "NotADirectory") {
            ErrorType::NotADirectory
        } else if crate::text::eq_str(name, "IsADirectory") {
            ErrorType::IsADirectory
        } else if crate::text::eq_str(name, "DirectoryNotEmpty") {
            ErrorType::DirectoryNotEmpty
        } else if crate::text::eq_str(name, "ReadOnlyFilesystem") {
            ErrorType::ReadOnlyFilesystem
        } else if crate::text::eq_str(name, "StaleNetworkFileHandle") {
            ErrorType::StaleNetworkFileHandle
        } else if crate::text::eq_str(name, "InvalidInput") {
            ErrorType::InvalidInput
        } else if crate::text::eq_str(name, "InvalidData") {
            ErrorType::InvalidData
        } else if crate::text::eq_str(name, "TimedOut") {
            ErrorType::TimedOut
        } else if crate::text::eq_str(name, "WriteZero") {
            ErrorType::WriteZero
        } else if crate::text::eq_str(name, "StorageFull") {
            ErrorType::StorageFull
        } else if crate::text::eq_str(name, "NotSeekable") {
            ErrorType::NotSeekable
        } else if crate::text::eq_str(name, "QuotaExceeded") {
            ErrorType::QuotaExceeded
        } else if crate::text::eq_str(name, "FileTooLarge") {
            ErrorType::FileTooLarge
        } else if crate::text::eq_str(name, "ResourceBusy") {
            ErrorType::ResourceBusy
        } else if crate::text::eq_str(name, "ExecutableFileBusy") {
            ErrorType::ExecutableFileBusy
        } else if crate::text::eq_str(name, "Deadlock") {
            ErrorType::DeadLock
        } else if crate::text::eq_str(name, "CrossesDevices") {
            ErrorType::CrossesDevices
        } else if crate::text::eq_str(name, "TooManyLinks") {
            ErrorType::TooManyLinks
        } else if crate::text::eq_str(name, "InvalidFilename") {
            ErrorType::InvalidFilename
        } else if crate::text::eq_str(name, "ArgumentListTooLong") {
            ErrorType::ArgumentListTooLong
        } else if crate::text::eq_str(name, "Interrupted") {
            ErrorType::Interrupted
        } else if crate::text::eq_str(name, "Unsupported") {
            ErrorType::Unsupported
        } else if crate::text::eq_str(name, "UnexpectedEof") {
            ErrorType::UnexpectedEof
        } else if crate::text::eq_str(name, "OutOfMemory") {
            ErrorType::OutOfMemory
        } else if crate::text::eq_str(name, "Other") {
            ErrorType::Other
        } else if crate::text::eq_str(name, "FilesystemLoop") {
            ErrorType::FilesystemLoop
        } else if crate::text::eq_str(name, "InProgress") {
            ErrorType::InProgress
        } else if crate::text::eq_str(name, "Uncategorized") {
            ErrorType::Uncategorized
        } else {
            ErrorType::Other
        }
    }
}

/// The name of an error kind, as `Debug` writes it.
pub open spec fn error_name(t: ErrorType) -> Seq<char> {
    match t {
        ErrorType::FileNotFound => "FileNotFound"@,
        ErrorType::AddressInUse => "AddressInUse"@,
        ErrorType::DeadLock => "DeadLock"@,
        ErrorType::NotFound => "NotFound"@,
        ErrorType::PermissionDenied => "PermissionDenied"@,
        ErrorType::ConnectionRefused => "ConnectionRefused"@,
        ErrorType::ConnectionReset => "ConnectionReset"@,
        ErrorType::HostUnreachable => "HostUnreachable"@,
        ErrorType::NetworkUnreachable => "NetworkUnreachable"@,
        ErrorType::ConnectionAborted => "ConnectionAborted"@,
        ErrorType::NotConnected => "NotConnected"@,
        ErrorType::AddrInUse => "AddrInUse"@,
        ErrorType::AddrNotAvailable => "AddrNotAvailable"@,
        ErrorType::NetworkDown => "NetworkDown"@,
        ErrorType::BrokenPipe => "BrokenPipe"@,
        ErrorType::AlreadyExists => "AlreadyExists"@,
        ErrorType::WouldBlock => "WouldBlock"@,
        ErrorType::NotADirectory => "NotADirectory"@,
        ErrorType::IsADirectory => "IsADirectory"@,
        ErrorType::DirectoryNotEmpty => "DirectoryNotEmpty"@,
        ErrorType::ReadOnlyFilesystem => "ReadOnlyFilesystem"@,
        ErrorType::FilesystemLoop => "FilesystemLoop"@,
        ErrorType::StaleNetworkFileHandle => "StaleNetworkFileHandle"@,
        ErrorType::InvalidInput => "InvalidInput"@,
        ErrorType::InvalidUrl => "InvalidUrl"@,
        ErrorType::InvalidData => "InvalidData"@,
        ErrorType::TimedOut => "TimedOut"@,
        ErrorType::WriteZero => "WriteZero"@,
        ErrorType::StorageFull => "StorageFull"@,
        ErrorType::NotSeekable => "NotSeekable"@,
        ErrorType::QuotaExceeded => "QuotaExceeded"@,
        ErrorType::FileTooLarge => "FileTooLarge"@,
        ErrorType::ResourceBusy => "ResourceBusy"@,
        ErrorType::ExecutableFileBusy => "ExecutableFileBusy"@,
        ErrorType::CrossesDevices => "CrossesDevices"@,
        ErrorType::TooManyLinks => "TooManyLinks"@,
        ErrorType::InvalidFilename => "InvalidFilename"@,
        ErrorType::ArgumentListTooLong => "ArgumentListTooLong"@,
        ErrorType::Interrupted => "Interrupted"@,
        ErrorType::Unsupported => "Unsupported"@,
        ErrorType::ResourceUnavailable => "ResourceUnavailable"@,
        ErrorType::UnexpectedEof => "UnexpectedEof"@,
        ErrorType::OutOfMemory => "OutOfMemory"@,
        ErrorType::InProgress => "InProgress"@,
        ErrorType::Other => "Other"@,
        ErrorType::Uncategorized => "Uncategorized"@,
        ErrorType::TlsHandshakeFailed => "TlsHandshakeFailed"@,
        ErrorType::AcmeChallengeFailed => "AcmeChallengeFailed"@,
        ErrorType::CertExpired => "CertExpired"@,
        ErrorType::InvalidConfig => "InvalidConfig"@,
        ErrorType::Parse => "Parse"@,
        ErrorType::Encoding => "Encoding"@,
        ErrorType::Overflow => "Overflow"@,
        ErrorType::InvalidRange => "InvalidRange"@,
        ErrorType::InvalidLength => "InvalidLength"@,
        ErrorType::BufferOverflow => "BufferOverflow"@,
        ErrorType::ChannelClosed => "ChannelClosed"@,
        ErrorType::AlreadyRunning => "AlreadyRunning"@,
        ErrorType::RenderError => "RenderError"@,
        ErrorType::FileExists => "FileExists"@,
        ErrorType::ConversionFailed => "ConversionFailed"@,
        ErrorType::InvalidState => "InvalidState"@,
        ErrorType::Expired => "Expired"@,
        ErrorType::Future => "Future"@,
    }
}

impl ErrorType {
    /// The name of the kind, as `Debug` writes it.
    pub fn name(&self) -> (r: &'static str)
        ensures
            r@ == error_name(*self),
    {
        match self {
            ErrorType::FileNotFound => "FileNotFound",
            ErrorType::AddressInUse => "AddressInUse",
            ErrorType::DeadLock => "DeadLock",
            ErrorType::NotFound => "NotFound",
            ErrorType::PermissionDenied => "PermissionDenied",
            ErrorType::ConnectionRefused => "ConnectionRefused",
            ErrorType::ConnectionReset => "ConnectionReset",
            ErrorType::HostUnreachable => "HostUnreachable",
            ErrorType::NetworkUnreachable => "NetworkUnreachable",
            ErrorType::ConnectionAborted => "ConnectionAborted",
            ErrorType::NotConnected => "NotConnected",
            ErrorType::AddrInUse => "AddrInUse",
            ErrorType::AddrNotAvailable => "AddrNotAvailable",
            ErrorType::NetworkDown => "NetworkDown",
            ErrorType::BrokenPipe => "BrokenPipe",
            ErrorType::AlreadyExists => "AlreadyExists",
            ErrorType::WouldBlock => "WouldBlock",
            ErrorType::NotADirectory => "NotADirectory",
            ErrorType::IsADirectory => "IsADirectory",
            ErrorType::DirectoryNotEmpty => "DirectoryNotEmpty",
            ErrorType::ReadOnlyFilesystem => "ReadOnlyFilesystem",
            ErrorType::FilesystemLoop => "FilesystemLoop",
            ErrorType::StaleNetworkFileHandle => "StaleNetworkFileHandle",
            ErrorType::InvalidInput => "InvalidInput",
            ErrorType::InvalidUrl => "InvalidUrl",
            ErrorType::InvalidData => "InvalidData",
            ErrorType::TimedOut => "TimedOut",
            ErrorType::WriteZero => "WriteZero",
            ErrorType::StorageFull => "StorageFull",
            ErrorType::NotSeekable => "NotSeekable",
            ErrorType::QuotaExceeded => "QuotaExceeded",
            ErrorType::FileTooLarge => "FileTooLarge",
            ErrorType::ResourceBusy => "ResourceBusy",
            ErrorType::ExecutableFileBusy => "ExecutableFileBusy",
            ErrorType::CrossesDevices => "CrossesDevices",
            ErrorType::TooManyLinks => "TooManyLinks",
            ErrorType::InvalidFilename => "InvalidFilename",
            ErrorType::ArgumentListTooLong => "ArgumentListTooLong",
            ErrorType::Interrupted => "Interrupted",
            ErrorType::Unsupported => "Unsupported",
            ErrorType::ResourceUnavailable => "ResourceUnavailable",
            ErrorType::UnexpectedEof => "UnexpectedEof",
            ErrorType::OutOfMemory => "OutOfMemory",
            ErrorType::InProgress => "InProgress",
            ErrorType::Other => "Other",
            ErrorType::Uncategorized => "Uncategorized",
            ErrorType::TlsHandshakeFailed => "TlsHandshakeFailed",
            ErrorType::AcmeChallengeFailed => "AcmeChallengeFailed",
            ErrorType::CertExpired => "CertExpired",
            ErrorType::InvalidConfig => "InvalidConfig",
            ErrorType::Parse => "Parse",
            ErrorType::Encoding => "Encoding",
            ErrorType::Overflow => "Overflow",
            ErrorType::InvalidRange => "InvalidRange",
            ErrorType::InvalidLength => "InvalidLength",
            ErrorType::BufferOverflow => "BufferOverflow",
            ErrorType::ChannelClosed => "ChannelClosed",
            ErrorType::AlreadyRunning => "AlreadyRunning",
            ErrorType::RenderError => "RenderError",
            ErrorType::FileExists => "FileExists",
            ErrorType::ConversionFailed => "ConversionFailed",
            ErrorType::InvalidState => "InvalidState",
            ErrorType::Expired => "Expired",
            ErrorType::Future => "Future",
        }
    }
}

/// An error: its kind and a message.
#[derive(Debug, Clone)]
pub struct Error {
    pub error_type: ErrorType,
    pub message: String,
}

impl View for Error {
    type V = (ErrorType, Seq<char>);

    /// An error is seen as its kind and the characters of its message.
    open spec fn view(&self) -> (ErrorType, Seq<char>) {
        (self.error_type, self.message@)
    }
}

/// What another error turned out to be, with what is read of it: the
/// `Debug` name of an I/O error's kind and its text; the text of a UTF-8
/// error; an HTTP error's status and `Debug` text; the text of an integer
/// parse error; an error of this library; or the text of anything else.
#[derive(Debug)]
pub enum ErrorSource {
    Io(String, String),
    Utf8(String),
    Http(u16, String),
    ParseInt(String),
    Library(Error),
    Other(String),
}

/// What an error is made with: a text, or an error of this library, which
/// is kept as it is.
#[derive(Debug)]
pub enum ErrorMessage {
    Text(String),
    Library(Error),
}

/// The kinds of failure of the ACME client, with the text of each.
#[derive(Debug)]
pub enum AcmeFailure {
    Api(String),
    Crypto(String),
    KeyRejected(String),
    Http(String),
    Hyper(String),
    InvalidUri(String),
    Json(String),
    Timeout(String),
    Unsupported(String),
    Other(String),
    Unknown(String),
}

/// The `std::io::Error` type, carried through opaquely.
#[verifier::external_type_specification]
#[verifier::external_body]
pub struct ExIoError(std::io::Error);

/// The `Debug` name of the kind of an I/O error: `std::io::Error::kind`
/// written with `{:?}`, a function of the error alone.
pub uninterp spec fn io_kind_debug(e: std::io::Error) -> Seq<char>;

/// Writes the kind of an I/O error (`std::io::Error::kind`) with `{:?}`;
/// the result is the name `io_kind_debug` of the error.
#[verifier::external_body]
fn io_error_kind_name(e: &std::io::Error) -> (r: String)
    ensures
        r@ == io_kind_debug(*e),
{
    format!("{:?}", e.kind())
}

/// The `Display` text of an I/O error (`ToString::to_string`); nothing is
/// claimed of it here, since for operating-system errors it depends on the
/// system's messages.
#[verifier::external_body]
fn io_error_text(e: &std::io::Error) -> String {
    e.to_string()
}

impl Error {
    /// An error of the given kind with the given message.
    pub fn new(error_type: ErrorType, message: &str) -> (r: Error)
        ensures
            r.error_type == error_type,
            r.message@ == message@,
    {
        let chars = chars_of(message);
        Error { error_type, message: crate::text::string_of(&chars) }
    }

    /// An error of the given kind with the given message; where the
    /// message is itself an error of this library, that error is given back
    /// as it is, its own kind and message kept.
    pub fn new_message(error_type: ErrorType, message: ErrorMessage) -> (r: Error)
        ensures
            r@ == match message {
                ErrorMessage::Text(t) => (error_type, t@),
                ErrorMessage::Library(e) => e@,
            },
    {
        match message {
            ErrorMessage::Text(t) => Error { error_type, message: t },
            ErrorMessage::Library(e) => e,
        }
    }

    /// The error as text: `[Kind] message`.
    pub fn text(&self) -> (r: String)
        ensures
            r@ == "["@ + error_name(self.error_type) + "] "@ + self.message@,
    {
        let mut t = chars_of("[");
        let n = chars_of(self.error_type.name());
        crate::text::push_all(&mut t, &n);
        let b = chars_of("] ");
        crate::text::push_all(&mut t, &b);
        let m = chars_of(self.message.as_str());
        crate::text::push_all(&mut t, &m);
        crate::text::string_of(&t)
    }

    /// The kind of this error.
    pub fn kind(&self) -> (r: ErrorType)
        ensures
            r == self.error_type,
    {
        self.error_type
    }

    /// Whether this error is of the given kind.
    pub fn is_kind(&self, kind: ErrorType) -> (r: bool)
        ensures
            r == (self.error_type == kind),
    {
        self.error_type == kind
    }

    /// The error that this one wraps. Errors are built here from a kind
    /// and a message only, so there never is one.
    pub fn get_original_error(&self) -> (r: Option<&Error>)
        ensures
            r is None,
    {
        None
    }

    /// An error for an I/O error: its kind is the one that the I/O error's
    /// kind maps to, its message the I/O error's text.
    pub fn from_io_error(err: std::io::Error) -> (r: Error)
        ensures
            r.error_type == error_of_io_kind(io_kind_debug(err)),
    {
        let name = io_error_kind_name(&err);
        let name_chars = chars_of(name.as_str());
        let error_type = ErrorType::from_io_kind_name(&name_chars);
        let message = io_error_text(&err);
        Error { error_type, message }
    }

    /// An error for another error, by what that error is: an I/O error
    /// keeps its kind's mapping and its text; a UTF-8 error is `Encoding`;
    /// an HTTP error takes the kind of its status and its `Debug` text; an
    /// integer parse error is `Parse`; an error of this library is kept;
    /// anything else is `Other`.
    pub fn from_error(source: ErrorSource) -> (r: Error)
        ensures
            r@ == match source {
                ErrorSource::Io(kind, text) => (error_of_io_kind(kind@), text@),
                ErrorSource::Utf8(text) => (ErrorType::Encoding, text@),
                ErrorSource::Http(status, text) => (error_of_status(status), text@),
                ErrorSource::ParseInt(text) => (ErrorType::Parse, text@),
                ErrorSource::Library(e) => e@,
                ErrorSource::Other(text) => (ErrorType::Other, text@),
            },
    {
        match source {
            ErrorSource::Io(kind, text) => {
                let k = chars_of(kind.as_str());
                Error { error_type: ErrorType::from_io_kind_name(&k), message: text }
            },
            ErrorSource::Utf8(text) => Error { error_type: ErrorType::Encoding, message: text },
            ErrorSource::Http(status, text) => Error { error_type: ErrorType::from_http_status(status), message: text },
            ErrorSource::ParseInt(text) => Error { error_type: ErrorType::Parse, message: text },
            ErrorSource::Library(e) => e,
            ErrorSource::Other(text) => Error { error_type: ErrorType::Other, message: text },
        }
    }

    /// An error for a failure of the ACME client: an API, cryptography,
    /// HTTP or transport failure is `InvalidState`, a rejected key
    /// `PermissionDenied`, an invalid URI `HostUnreachable`, a JSON failure
    /// `Parse`, a timeout `TimedOut`, an unsupported request `Unsupported`,
    /// anything else `Other`; the message is the failure's text.
    pub fn from_acme_error(err: AcmeFailure) -> (r: Error)
        ensures
            r@ == match err {
                AcmeFailure::Api(t) => (ErrorType::InvalidState, t@),
                AcmeFailure::Crypto(t) => (ErrorType::InvalidState, t@),
                AcmeFailure::KeyRejected(t) => (ErrorType::PermissionDenied, t@),
                AcmeFailure::Http(t) => (ErrorType::InvalidState, t@),
                AcmeFailure::Hyper(t) => (ErrorType::InvalidState, t@),
                AcmeFailure::InvalidUri(t) => (ErrorType::HostUnreachable, t@),
                AcmeFailure::Json(t) => (ErrorType::Parse, t@),
                AcmeFailure::Timeout(t) => (ErrorType::TimedOut, t@),
                AcmeFailure::Unsupported(t) => (ErrorType::Unsupported, t@),
                AcmeFailure::Other(t) => (ErrorType::Other, t@),
                AcmeFailure::Unknown(t) => (ErrorType::Other, t@),
            },
    {
        match err {
            AcmeFailure::Api(t) => Error { error_type: ErrorType::InvalidState, message: t },
            AcmeFailure::Crypto(t) => Error { error_type: ErrorType::InvalidState, message: t },
            AcmeFailure::KeyRejected(t) => Error { error_type: ErrorType::PermissionDenied, message: t },
            AcmeFailure::Http(t) => Error { error_type: ErrorType::InvalidState, message: t },
            AcmeFailure::Hyper(t) => Error { error_type: ErrorType::InvalidState, message: t },
            AcmeFailure::InvalidUri(t) => Error { error_type: ErrorType::HostUnreachable, message: t },
            AcmeFailure::Json(t) => Error { error_type: ErrorType::Parse, message: t },
            AcmeFailure::Timeout(t) => Error { error_type: ErrorType::TimedOut, message: t },
            AcmeFailure::Unsupported(t) => Error { error_type: ErrorType::Unsupported, message: t },
            AcmeFailure::Other(t) => Error { error_type: ErrorType::Other, message: t },
            AcmeFailure::Unknown(t) => Error { error_type: ErrorType::Other, message: t },
        }
    }

    /// An error of kind `Other` carrying the text of another error.
    pub fn from_std_error(err: &str) -> (r: Error)
        ensures
            r.error_type == ErrorType::Other,
            r.message@ == err@,
    {
        Self::new(ErrorType::Other, err)
    }

    /// The error for an I/O error: as `from_io_error`, its kind the one
    /// that the I/O error's kind maps to.
    pub fn io_error_from(err: std::io::Error) -> (r: Error)
        ensures
            r.error_type == error_of_io_kind(io_kind_debug(err)),
    {
        Self::from_io_error(err)
    }

    /// The error for an I/O failure described only by a message: such an
    /// I/O error has kind `Other`, and its text is the message.
    pub fn io_error(err: &str) -> (r: Error)
        ensures
            r.error_type == ErrorType::Other,
            r.message@ == err@,
    {
        Self::new(ErrorType::Other, err)
    }

    /// An error of kind `TlsHandshakeFailed` with the given message; the I/O error is
    /// not kept.
    pub fn tls_handshake_error(err: std::io::Error, m: &str) -> (r: Error)
        ensures
            r.error_type == ErrorType::TlsHandshakeFailed,
            r.message@ == m@,
    {
        Self::new(ErrorType::TlsHandshakeFailed, m)
    }

    /// An error of kind `AcmeChallengeFailed` with the given message; the I/O error is
    /// not kept.
    pub fn acme_challenge_error(err: std::io::Error, m: &str) -> (r: Error)
        ensures
            r.error_type == ErrorType::AcmeChallengeFailed,
            r.message@ == m@,
    {
        Self::new(ErrorType::AcmeChallengeFailed, m)
    }

    /// An error of kind `CertExpired` with the given message; the I/O error is
    /// not kept.
    pub fn cert_expired_error(err: std::io::Error, m: &str) -> (r: Error)
        ensures
            r.error_type == ErrorType::CertExpired,
            r.message@ == m@,
    {
        Self::new(ErrorType::CertExpired, m)
    }

    /// An error of kind `InvalidConfig` with the given message; the I/O error is
    /// not kept.
    pub fn invalid_config_error(err: std::io::Error, m: &str) -> (r: Error)
        ensures
            r.error_type == ErrorType::InvalidConfig,
            r.message@ == m@,
    {
        Self::new(ErrorType::InvalidConfig, m)
    }

    /// An error of kind `InvalidUrl` with the given message.
    pub fn invalid_url(m: &str) -> (r: Error)
        ensures
            r.error_type == ErrorType::InvalidUrl,
            r.message@ == m@,
    {
        Self::new(ErrorType::InvalidUrl, m)
    }

    /// An error of kind `ConversionFailed` with the given message.
    pub fn conversion_failed(m: &str) -> (r: Error)
        ensures
            r.error_type == ErrorType::ConversionFailed,
            r.message@ == m@,
    {
        Self::new(ErrorType::ConversionFailed, m)
    }

    /// An error of kind `Expired` with the given message.
    pub fn expired(m: &str) -> (r: Error)
        ensures
            r.error_type == ErrorType::Expired,
            r.message@ == m@,
    {
        Self::new(ErrorType::Expired, m)
    }

    /// An error of kind `Future` with the given message.
    pub fn future(m: &str) -> (r: Error)
        ensures
            r.error_type == ErrorType::Future,
            r.message@ == m@,
    {
        Self::new(ErrorType::Future, m)
    }

    /// An error of kind `InvalidState` with the given message.
    pub fn invalid_state(m: &str) -> (r: Error)
        ensures
            r.error_type == ErrorType::InvalidState,
            r.message@ == m@,
    {
        Self::new(ErrorType::InvalidState, m)
    }

    /// An error of kind `Interrupted` with the given message.
    pub fn interrupted(m: &str) -> (r: Error)
        ensures
            r.error_type == ErrorType::Interrupted,
            r.message@ == m@,
    {
        Self::new(ErrorType::Interrupted, m)
    }

    /// An error of kind `Parse` with the given message.
    pub fn parse_error(m: &str) -> (r: Error)
        ensures
            r.error_type == ErrorType::Parse,
            r.message@ == m@,
    {
        Self::new(ErrorType::Parse, m)
    }

    /// An error of kind `AlreadyExists` with the given message.
    pub fn already_exists(m: &str) -> (r: Error)
        ensures
            r.error_type == ErrorType::AlreadyExists,
            r.message@ == m@,
    {
        Self::new(ErrorType::AlreadyExists, m)
    }

    /// An error of kind `FileNotFound` with the given message.
    pub fn file_not_found(m: &str) -> (r: Error)
        ensures
            r.error_type == ErrorType::FileNotFound,
            r.message@ == m@,
    {
        Self::new(ErrorType::FileNotFound, m)
    }

    /// An error of kind `AddressInUse` with the given message.
    pub fn address_in_use(m: &str) -> (r: Error)
        ensures
            r.error_type == ErrorType::AddressInUse,
            r.message@ == m@,
    {
        Self::new(ErrorType::AddressInUse, m)
    }

    /// An error of kind `AlreadyRunning` with the given message.
    pub fn already_running(m: &str) -> (r: Error)
        ensures
            r.error_type == ErrorType::AlreadyRunning,
            r.message@ == m@,
    {
        Self::new(ErrorType::AlreadyRunning, m)
    }

    /// An error of kind `InProgress` with the given message.
    pub fn in_progress(m: &str) -> (r: Error)
        ensures
            r.error_type == ErrorType::InProgress,
            r.message@ == m@,
    {
        Self::new(ErrorType::InProgress, m)
    }

    /// An error of kind `InvalidData` with the given message.
    pub fn invalid_data(m: &str) -> (r: Error)
        ensures
            r.error_type == ErrorType::InvalidData,
            r.message@ == m@,
    {
        Self::new(ErrorType::InvalidData, m)
    }

    /// An error of kind `DeadLock` with the given message.
    pub fn dead_lock(m: &str) -> (r: Error)
        ensures
            r.error_type == ErrorType::DeadLock,
            r.message@ == m@,
    {
        Self::new(ErrorType::DeadLock, m)
    }

    /// An error of kind `NotFound` with the given message.
    pub fn not_found(m: &str) -> (r: Error)
        ensures
            r.error_type == ErrorType::NotFound,
            r.message@ == m@,
    {
        Self::new(ErrorType::NotFound, m)
    }

    /// An error of kind `PermissionDenied` with the given message.
    pub fn permission_denied(m: &str) -> (r: Error)
        ensures
            r.error_type == ErrorType::PermissionDenied,
            r.message@ == m@,
    {
        Self::new(ErrorType::PermissionDenied, m)
    }

    /// An error of kind `ConnectionRefused` with the given message.
    pub fn connection_refused(m: &str) -> (r: Error)
        ensures
            r.error_type == ErrorType::ConnectionRefused,
            r.message@ == m@,
    {
        Self::new(ErrorType::ConnectionRefused, m)
    }

    /// An error of kind `TimedOut` with the given message.
    pub fn timeout(m: &str) -> (r: Error)
        ensures
            r.error_type == ErrorType::TimedOut,
            r.message@ == m@,
    {
        Self::new(ErrorType::TimedOut, m)
    }

    /// An error of kind `OutOfMemory` with the given message.
    pub fn out_of_memory(m: &str) -> (r: Error)
        ensures
            r.error_type == ErrorType::OutOfMemory,
            r.message@ == m@,
    {
        Self::new(ErrorType::OutOfMemory, m)
    }

    /// An error of kind `ChannelClosed` with the given message.
    pub fn channel_closed(m: &str) -> (r: Error)
        ensures
            r.error_type == ErrorType::ChannelClosed,
            r.message@ == m@,
    {
        Self::new(ErrorType::ChannelClosed, m)
    }

    /// An error of kind `AddrNotAvailable` with the given message.
    pub fn address_not_available(m: &str) -> (r: Error)
        ensures
            r.error_type == ErrorType::AddrNotAvailable,
            r.message@ == m@,
    {
        Self::new(ErrorType::AddrNotAvailable, m)
    }

    /// An error of kind `Unsupported` with the given message.
    pub fn unsupported(m: &str) -> (r: Error)
        ensures
            r.error_type == ErrorType::Unsupported,
            r.message@ == m@,
    {
        Self::new(ErrorType::Unsupported, m)
    }

    /// An error of kind `Encoding` with the given message.
    pub fn encoding(m: &str) -> (r: Error)
        ensures
            r.error_type == ErrorType::Encoding,
            r.message@ == m@,
    {
        Self::new(ErrorType::Encoding, m)
    }

    /// An error of kind `RenderError` with the given message.
    pub fn render_error(m: &str) -> (r: Error)
        ensures
            r.error_type == ErrorType::RenderError,
            r.message@ == m@,
    {
        Self::new(ErrorType::RenderError, m)
    }

    /// An error of kind `TlsHandshakeFailed` with the given message.
    pub fn tls_failed(m: &str) -> (r: Error)
        ensures
            r.error_type == ErrorType::TlsHandshakeFailed,
            r.message@ == m@,
    {
        Self::new(ErrorType::TlsHandshakeFailed, m)
    }

    /// An error of kind `AcmeChallengeFailed` with the given message.
    pub fn acme_failed(m: &str) -> (r: Error)
        ensures
            r.error_type == ErrorType::AcmeChallengeFailed,
            r.message@ == m@,
    {
        Self::new(ErrorType::AcmeChallengeFailed, m)
    }

    /// An error of kind `CertExpired` with the given message.
    pub fn cert_expired(m: &str) -> (r: Error)
        ensures
            r.error_type == ErrorType::CertExpired,
            r.message@ == m@,
    {
        Self::new(ErrorType::CertExpired, m)
    }

    /// An error of kind `InvalidConfig` with the given message.
    pub fn invalid_config(m: &str) -> (r: Error)
        ensures
            r.error_type == ErrorType::InvalidConfig,
            r.message@ == m@,
    {
        Self::new(ErrorType::InvalidConfig, m)
    }

    /// An error of kind `InvalidInput` with the given message.
    pub fn invalid_input(m: &str) -> (r: Error)
        ensures
            r.error_type == ErrorType::InvalidInput,
            r.message@ == m@,
    {
        Self::new(ErrorType::InvalidInput, m)
    }

    /// An error of kind `Overflow` with the given message.
    pub fn overflow(m: &str) -> (r: Error)
        ensures
            r.error_type == ErrorType::Overflow,
            r.message@ == m@,
    {
        Self::new(ErrorType::Overflow, m)
    }

    /// An error of kind `InvalidRange` with the given message.
    pub fn invalid_range(m: &str) -> (r: Error)
        ensures
            r.error_type == ErrorType::InvalidRange,
            r.message@ == m@,
    {
        Self::new(ErrorType::InvalidRange, m)
    }

    /// An error of kind `InvalidLength` with the given message.
    pub fn invalid_length(m: &str) -> (r: Error)
        ensures
            r.error_type == ErrorType::InvalidLength,
            r.message@ == m@,
    {
        Self::new(ErrorType::InvalidLength, m)
    }

    /// An error of kind `UnexpectedEof` with the given message.
    pub fn unexpected_eof(m: &str) -> (r: Error)
        ensures
            r.error_type == ErrorType::UnexpectedEof,
            r.message@ == m@,
    {
        Self::new(ErrorType::UnexpectedEof, m)
    }

    /// An error of kind `WriteZero` with the given message.
    pub fn write_zero(m: &str) -> (r: Error)
        ensures
            r.error_type == ErrorType::WriteZero,
            r.message@ == m@,
    {
        Self::new(ErrorType::WriteZero, m)
    }

    /// An error of kind `StorageFull` with the given message.
    pub fn storage_full(m: &str) -> (r: Error)
        ensures
            r.error_type == ErrorType::StorageFull,
            r.message@ == m@,
    {
        Self::new(ErrorType::StorageFull, m)
    }

    /// An error of kind `NotSeekable` with the given message.
    pub fn not_seekable(m: &str) -> (r: Error)
        ensures
            r.error_type == ErrorType::NotSeekable,
            r.message@ == m@,
    {
        Self::new(ErrorType::NotSeekable, m)
    }

    /// An error of kind `QuotaExceeded` with the given message.
    pub fn quota_exceeded(m: &str) -> (r: Error)
        ensures
            r.error_type == ErrorType::QuotaExceeded,
            r.message@ == m@,
    {
        Self::new(ErrorType::QuotaExceeded, m)
    }

    /// An error of kind `FileTooLarge` with the given message.
    pub fn file_too_large(m: &str) -> (r: Error)
        ensures
            r.error_type == ErrorType::FileTooLarge,
            r.message@ == m@,
    {
        Self::new(ErrorType::FileTooLarge, m)
    }

    /// An error of kind `ResourceBusy` with the given message.
    pub fn resource_busy(m: &str) -> (r: Error)
        ensures
            r.error_type == ErrorType::ResourceBusy,
            r.message@ == m@,
    {
        Self::new(ErrorType::ResourceBusy, m)
    }

    /// An error of kind `ExecutableFileBusy` with the given message.
    pub fn executable_file_busy(m: &str) -> (r: Error)
        ensures
            r.error_type == ErrorType::ExecutableFileBusy,
            r.message@ == m@,
    {
        Self::new(ErrorType::ExecutableFileBusy, m)
    }

    /// An error of kind `CrossesDevices` with the given message.
    pub fn crosses_devices(m: &str) -> (r: Error)
        ensures
            r.error_type == ErrorType::CrossesDevices,
            r.message@ == m@,
    {
        Self::new(ErrorType::CrossesDevices, m)
    }

    /// An error of kind `TooManyLinks` with the given message.
    pub fn too_many_links(m: &str) -> (r: Error)
        ensures
            r.error_type == ErrorType::TooManyLinks,
            r.message@ == m@,
    {
        Self::new(ErrorType::TooManyLinks, m)
    }

    /// An error of kind `InvalidFilename` with the given message.
    pub fn invalid_filename(m: &str) -> (r: Error)
        ensures
            r.error_type == ErrorType::InvalidFilename,
            r.message@ == m@,
    {
        Self::new(ErrorType::InvalidFilename, m)
    }

    /// An error of kind `ArgumentListTooLong` with the given message.
    pub fn argument_list_too_long(m: &str) -> (r: Error)
        ensures
            r.error_type == ErrorType::ArgumentListTooLong,
            r.message@ == m@,
    {
        Self::new(ErrorType::ArgumentListTooLong, m)
    }

    /// An error of kind `HostUnreachable` with the given message.
    pub fn host_unreachable(m: &str) -> (r: Error)
        ensures
            r.error_type == ErrorType::HostUnreachable,
            r.message@ == m@,
    {
        Self::new(ErrorType::HostUnreachable, m)
    }

    /// An error of kind `NetworkUnreachable` with the given message.
    pub fn network_unreachable(m: &str) -> (r: Error)
        ensures
            r.error_type == ErrorType::NetworkUnreachable,
            r.message@ == m@,
    {
        Self::new(ErrorType::NetworkUnreachable, m)
    }

    /// An error of kind `ConnectionAborted` with the given message.
    pub fn connection_aborted(m: &str) -> (r: Error)
        ensures
            r.error_type == ErrorType::ConnectionAborted,
            r.message@ == m@,
    {
        Self::new(ErrorType::ConnectionAborted, m)
    }

    /// An error of kind `NotConnected` with the given message.
    pub fn not_connected(m: &str) -> (r: Error)
        ensures
            r.error_type == ErrorType::NotConnected,
            r.message@ == m@,
    {
        Self::new(ErrorType::NotConnected, m)
    }

    /// An error of kind `NetworkDown` with the given message.
    pub fn network_down(m: &str) -> (r: Error)
        ensures
            r.error_type == ErrorType::NetworkDown,
            r.message@ == m@,
    {
        Self::new(ErrorType::NetworkDown, m)
    }

    /// An error of kind `BrokenPipe` with the given message.
    pub fn broken_pipe(m: &str) -> (r: Error)
        ensures
            r.error_type == ErrorType::BrokenPipe,
            r.message@ == m@,
    {
        Self::new(ErrorType::BrokenPipe, m)
    }

    /// An error of kind `DirectoryNotEmpty` with the given message.
    pub fn directory_not_empty(m: &str) -> (r: Error)
        ensures
            r.error_type == ErrorType::DirectoryNotEmpty,
            r.message@ == m@,
    {
        Self::new(ErrorType::DirectoryNotEmpty, m)
    }

    /// An error of kind `ReadOnlyFilesystem` with the given message.
    pub fn readonly_filesystem(m: &str) -> (r: Error)
        ensures
            r.error_type == ErrorType::ReadOnlyFilesystem,
            r.message@ == m@,
    {
        Self::new(ErrorType::ReadOnlyFilesystem, m)
    }

    /// An error of kind `StaleNetworkFileHandle` with the given message.
    pub fn stale_network_file_handle(m: &str) -> (r: Error)
        ensures
            r.error_type == ErrorType::StaleNetworkFileHandle,
            r.message@ == m@,
    {
        Self::new(ErrorType::StaleNetworkFileHandle, m)
    }

    /// An error of kind `NotADirectory` with the given message.
    pub fn not_a_directory(m: &str) -> (r: Error)
        ensures
            r.error_type == ErrorType::NotADirectory,
            r.message@ == m@,
    {
        Self::new(ErrorType::NotADirectory, m)
    }

    /// An error of kind `IsADirectory` with the given message.
    pub fn is_a_directory(m: &str) -> (r: Error)
        ensures
            r.error_type == ErrorType::IsADirectory,
            r.message@ == m@,
    {
        Self::new(ErrorType::IsADirectory, m)
    }

    /// An error of kind `BufferOverflow` with the given message.
    pub fn buffer_overflow(m: &str) -> (r: Error)
        ensures
            r.error_type == ErrorType::BufferOverflow,
            r.message@ == m@,
    {
        Self::new(ErrorType::BufferOverflow, m)
    }

    /// An error of kind `ResourceUnavailable` with the given message.
    pub fn resource_unavailable(m: &str) -> (r: Error)
        ensures
            r.error_type == ErrorType::ResourceUnavailable,
            r.message@ == m@,
    {
        Self::new(ErrorType::ResourceUnavailable, m)
    }

    /// An error of kind `FileExists` with the given message.
    pub fn file_exists(m: &str) -> (r: Error)
        ensures
            r.error_type == ErrorType::FileExists,
            r.message@ == m@,
    {
        Self::new(ErrorType::FileExists, m)
    }

    /// An error of kind `Other` with the given message.
    pub fn other(m: &str) -> (r: Error)
        ensures
            r.error_type == ErrorType::Other,
            r.message@ == m@,
    {
        Self::new(ErrorType::Other, m)
    }

}

/// The status that answers an error kind is stable: reading that status
/// back as an error kind and answering it again gives the same status.
pub proof fn lemma_error_status_stable(e: ErrorType)
    ensures
        error_status(error_of_status(crate::http_status::status_code(error_status(e))))
            == error_status(e),
{
}


impl From<String> for Error {
    /// A text alone makes an error of kind `Other`.
    fn from(s: String) -> (r: Error) {
        Error { error_type: ErrorType::Other, message: s }
    }
}

impl vstd::std_specs::convert::FromSpecImpl<String> for Error {
    open spec fn obeys_from_spec() -> bool {
        true
    }

    open spec fn from_spec(s: String) -> Error {
        Error { error_type: ErrorType::Other, message: s }
    }
}

} // verus!
