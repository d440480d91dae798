//! Errors that the file access layer reports to its front-end.
use vstd::prelude::*;

verus! {

/// Everything that can go wrong while serving a front-end request.
#[derive(Debug, PartialEq, Eq)]
pub enum IpcError {
    /// An operating system failure, with its message.
    Io(String),
    /// Encoding or decoding of stored JSON content failed, with the message.
    Json(String),
    /// The category string was neither `official` nor `custom`.
    InvalidPluginType(String),
    /// The path (or the plugin id) would leave the plugin's root.
    PathPermissionDenied(String),
    /// The target is not a file.
    NotFile,
    /// The target is not a directory.
    NotDir,
    /// The target is a directory.
    IsDir,
}

/// The tagged form of an error handed to the front-end: a kind and a message.
#[derive(Debug, PartialEq, Eq)]
pub enum IpcErrorKind {
    Io(String),
    Json(String),
    InvalidPluginType(String),
    PathPermissionDenied(String),
    NotFile(String),
    NotDir(String),
    IsDir(String),
}

/// `prefix` followed by `detail`.
fn prefixed(prefix: &str, detail: &str) -> (r: String)
    ensures
        r@ == prefix@ + detail@,
{
    String::from_str(prefix).concat(detail)
}

/// The message shown for an error.
pub open spec fn message_of(e: &IpcError) -> Seq<char> {
    match e {
        IpcError::Io(m) => m@,
        IpcError::Json(m) => m@,
        IpcError::InvalidPluginType(t) => "无效的插件类型: "@ + t@,
        IpcError::PathPermissionDenied(p) => "不允许的路径: "@ + p@,
        IpcError::NotFile => "目标不是文件"@,
        IpcError::NotDir => "目标不是目录"@,
        IpcError::IsDir => "目标是目录"@,
    }
}

impl IpcError {
    /// The message shown for this error.
    pub fn message(&self) -> (r: String)
        ensures
            r@ == message_of(self),
    {
        match self {
            IpcError::Io(m) => m.clone(),
            IpcError::Json(m) => m.clone(),
            IpcError::InvalidPluginType(t) => prefixed("无效的插件类型: ", t.as_str()),
            IpcError::PathPermissionDenied(p) => prefixed("不允许的路径: ", p.as_str()),
            IpcError::NotFile => String::from_str("目标不是文件"),
            IpcError::NotDir => String::from_str("目标不是目录"),
            IpcError::IsDir => String::from_str("目标是目录"),
        }
    }

    /// The tagged form handed to the front-end: the kind of this error and its message.
    pub fn to_kind(&self) -> (r: IpcErrorKind)
        ensures
            match self {
                IpcError::Io(_) => r matches IpcErrorKind::Io(m) && m@ == message_of(self),
                IpcError::Json(_) => r matches IpcErrorKind::Json(m) && m@ == message_of(self),
                IpcError::InvalidPluginType(_) => r matches IpcErrorKind::InvalidPluginType(m) && m@
                    == message_of(self),
                IpcError::PathPermissionDenied(_) => r matches IpcErrorKind::PathPermissionDenied(m)
                    && m@ == message_of(self),
                IpcError::NotFile => r matches IpcErrorKind::NotFile(m) && m@ == message_of(self),
                IpcError::NotDir => r matches IpcErrorKind::NotDir(m) && m@ == message_of(self),
                IpcError::IsDir => r matches IpcErrorKind::IsDir(m) && m@ == message_of(self),
            },
    {
        let m = self.message();
        match self {
            IpcError::Io(_) => IpcErrorKind::Io(m),
            IpcError::Json(_) => IpcErrorKind::Json(m),
            IpcError::InvalidPluginType(_) => IpcErrorKind::InvalidPluginType(m),
            IpcError::PathPermissionDenied(_) => IpcErrorKind::PathPermissionDenied(m),
            IpcError::NotFile => IpcErrorKind::NotFile(m),
            IpcError::NotDir => IpcErrorKind::NotDir(m),
            IpcError::IsDir => IpcErrorKind::IsDir(m),
        }
    }
}

} // verus!
