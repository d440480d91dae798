//! The checks of each file operation, made before anything on disk changes.
//!
//! Each operation takes a path already confined to a plugin's root and, where
//! it depends on what is there, what the filesystem reports of that path. It
//! answers with the work to do, or with the error that the operation reports.
use vstd::prelude::*;

use crate::error::IpcError;
use crate::path::render;
use crate::sandbox::SafePath;

verus! {

/// What the filesystem reports about a path; all false where nothing is.
#[derive(Debug, Clone, Copy, PartialEq, Eq, Structural)]
pub struct FsItemInfo {
    pub exists: bool,
    pub is_file: bool,
    pub is_dir: bool,
}

/// Work on the filesystem, each path given as its text.
#[derive(Debug, PartialEq, Eq)]
pub enum FsAction {
    /// Read the file as text.
    ReadText(String),
    /// Create the directory `dir` with its missing ancestors, then write the
    /// content to `file`, creating or overwriting it.
    WriteText { dir: String, file: String },
    /// Remove the file.
    RemoveFile(String),
    /// Create the directory with its missing ancestors; nothing to do where it exists.
    CreateDirAll(String),
    /// Remove the directory with everything in it.
    RemoveDirAll(String),
}

/// Reading asks for a file.
pub fn read_file(target: &SafePath, info: FsItemInfo) -> (r: Result<FsAction, IpcError>)
    ensures
        info.is_file ==> (r matches Ok(FsAction::ReadText(p)) && p@ == render(target.absolute())),
        !info.is_file ==> r matches Err(IpcError::NotFile),
{
    if !info.is_file {
        return Err(IpcError::NotFile);
    }
    Ok(FsAction::ReadText(target.to_text()))
}

/// Writing refuses a directory; the root of a plugin is always one. The
/// directory that holds the file is created first.
pub fn write_file(target: &SafePath, info: FsItemInfo) -> (r: Result<FsAction, IpcError>)
    ensures
        info.is_dir || target.relative().len() == 0 ==> r matches Err(IpcError::IsDir),
        !info.is_dir && target.relative().len() > 0 ==> (r matches Ok(
            FsAction::WriteText { dir, file },
        ) && dir@ == render(target.absolute().drop_last()) && file@ == render(
            target.absolute(),
        )),
{
    if info.is_dir {
        return Err(IpcError::IsDir);
    }
    match target.parent() {
        None => Err(IpcError::IsDir),
        Some(dir) => Ok(FsAction::WriteText { dir: dir.to_text(), file: target.to_text() }),
    }
}

/// Removing a file asks for a file; the root of a plugin is never one.
pub fn remove_file(target: &SafePath, info: FsItemInfo) -> (r: Result<FsAction, IpcError>)
    ensures
        info.is_file && target.relative().len() > 0 ==> (r matches Ok(FsAction::RemoveFile(p))
            && p@ == render(target.absolute())),
        !info.is_file || target.relative().len() == 0 ==> r matches Err(IpcError::NotFile),
{
    if !info.is_file || target.is_root() {
        return Err(IpcError::NotFile);
    }
    Ok(FsAction::RemoveFile(target.to_text()))
}

/// Creating a directory needs no check: it asks for the same work whatever
/// is there, and creating one that exists changes nothing.
pub fn create_dir(target: &SafePath) -> (r: FsAction)
    ensures
        r matches FsAction::CreateDirAll(p) && p@ == render(target.absolute()),
{
    FsAction::CreateDirAll(target.to_text())
}

/// Removing a directory asks for a directory. The root of a plugin is never
/// removed: asking for it is refused as a path that is not permitted.
pub fn remove_dir(target: &SafePath, info: FsItemInfo) -> (r: Result<FsAction, IpcError>)
    ensures
        !info.is_dir ==> r matches Err(IpcError::NotDir),
        info.is_dir && target.relative().len() == 0 ==> (r matches Err(
            IpcError::PathPermissionDenied(p),
        ) && p@ == render(target.absolute())),
        info.is_dir && target.relative().len() > 0 ==> (r matches Ok(FsAction::RemoveDirAll(p))
            && p@ == render(target.absolute())),
{
    if !info.is_dir {
        return Err(IpcError::NotDir);
    }
    if target.is_root() {
        return Err(IpcError::PathPermissionDenied(target.to_text()));
    }
    Ok(FsAction::RemoveDirAll(target.to_text()))
}

} // verus!
