//! Failure taxonomy of the execution engine.
//!
//! Every failure is tagged with the operation that failed and carries a
//! human-readable detail string. Rendering is deterministic, so the `error`
//! field of a failed task is reproducible.

use vstd::prelude::*;

verus! {

/// A tagged failure kind with context.
#[derive(Debug, PartialEq, Eq)]
pub enum FaberError {
    Generic { message: String },
    PipeCreate { details: String },
    FdClose { details: String },
    Fork { details: String },
    Unshare { details: String },
    Mount { details: String },
    Umount { details: String },
    PivotRoot { details: String },
    Chdir { details: String },
    CreateContainerRootDir { details: String },
    RemoveContainerRootDir { details: String },
    CreateDir { details: String },
    RemoveDir { details: String },
    WriteFile { details: String },
    MkDevDevice { details: String },
    SetUid { details: String },
    SetGid { details: String },
    SetHostname { details: String },
    CgroupControllersEnable { details: String },
    ParseResult { details: String },
    ExecuteTask { details: String },
    GetStdout { details: String },
    GetStderr { details: String },
    WriteStdin { details: String },
    GetExitCode { details: String },
    TaskTimeout { details: String },
}

impl FaberError {
    /// The fixed prefix under which a kind is rendered.
    pub open spec fn spec_prefix(&self) -> Seq<char> {
        match self {
            FaberError::Generic { .. } => "General error: "@,
            FaberError::PipeCreate { .. } => "Failed to create pipe: "@,
            FaberError::FdClose { .. } => "Failed to close file descriptor: "@,
            FaberError::Fork { .. } => "Failed to fork: "@,
            FaberError::Unshare { .. } => "Failed to unshare: "@,
            FaberError::Mount { .. } => "Failed to mount: "@,
            FaberError::Umount { .. } => "Failed to unmount: "@,
            FaberError::PivotRoot { .. } => "Failed to pivot root: "@,
            FaberError::Chdir { .. } => "Failed to change directory: "@,
            FaberError::CreateContainerRootDir { .. } => "Failed to create container root directory: "@,
            FaberError::RemoveContainerRootDir { .. } => "Failed to remove container root directory: "@,
            FaberError::CreateDir { .. } => "Failed to create directory: "@,
            FaberError::RemoveDir { .. } => "Failed to remove directory: "@,
            FaberError::WriteFile { .. } => "Failed to write file: "@,
            FaberError::MkDevDevice { .. } => "Failed to create dev device: "@,
            FaberError::SetUid { .. } => "Failed to set user ID: "@,
            FaberError::SetGid { .. } => "Failed to set group ID: "@,
            FaberError::SetHostname { .. } => "Failed to set hostname: "@,
            FaberError::CgroupControllersEnable { .. } => "Failed to enable cgroup controllers: "@,
            FaberError::ParseResult { .. } => "Failed to parse result from child process: "@,
            FaberError::ExecuteTask { .. } => "Failed to execute task: "@,
            FaberError::GetStdout { .. } => "Failed to get stdout from task: "@,
            FaberError::GetStderr { .. } => "Failed to get stderr from task: "@,
            FaberError::WriteStdin { .. } => "Failed to write stdin to task: "@,
            FaberError::GetExitCode { .. } => "Failed to get exit code from task: "@,
            FaberError::TaskTimeout { .. } => "Task exceeded timeout limit: "@,
        }
    }

    /// The detail string carried by the kind.
    pub open spec fn spec_details(&self) -> Seq<char> {
        match self {
            FaberError::Generic { message } => message@,
            FaberError::PipeCreate { details } => details@,
            FaberError::FdClose { details } => details@,
            FaberError::Fork { details } => details@,
            FaberError::Unshare { details } => details@,
            FaberError::Mount { details } => details@,
            FaberError::Umount { details } => details@,
            FaberError::PivotRoot { details } => details@,
            FaberError::Chdir { details } => details@,
            FaberError::CreateContainerRootDir { details } => details@,
            FaberError::RemoveContainerRootDir { details } => details@,
            FaberError::CreateDir { details } => details@,
            FaberError::RemoveDir { details } => details@,
            FaberError::WriteFile { details } => details@,
            FaberError::MkDevDevice { details } => details@,
            FaberError::SetUid { details } => details@,
            FaberError::SetGid { details } => details@,
            FaberError::SetHostname { details } => details@,
            FaberError::CgroupControllersEnable { details } => details@,
            FaberError::ParseResult { details } => details@,
            FaberError::ExecuteTask { details } => details@,
            FaberError::GetStdout { details } => details@,
            FaberError::GetStderr { details } => details@,
            FaberError::WriteStdin { details } => details@,
            FaberError::GetExitCode { details } => details@,
            FaberError::TaskTimeout { details } => details@,
        }
    }

    /// The rendered message: the kind's prefix followed by its details.
    pub open spec fn spec_message(&self) -> Seq<char> {
        self.spec_prefix() + self.spec_details()
    }

    /// Render the failure as a message string.
    pub fn message(&self) -> (r: String)
        ensures
            r@ == self.spec_message(),
    {
        let prefix: &str = match self {
            FaberError::Generic { .. } => "General error: ",
            FaberError::PipeCreate { .. } => "Failed to create pipe: ",
            FaberError::FdClose { .. } => "Failed to close file descriptor: ",
            FaberError::Fork { .. } => "Failed to fork: ",
            FaberError::Unshare { .. } => "Failed to unshare: ",
            FaberError::Mount { .. } => "Failed to mount: ",
            FaberError::Umount { .. } => "Failed to unmount: ",
            FaberError::PivotRoot { .. } => "Failed to pivot root: ",
            FaberError::Chdir { .. } => "Failed to change directory: ",
            FaberError::CreateContainerRootDir { .. } => "Failed to create container root directory: ",
            FaberError::RemoveContainerRootDir { .. } => "Failed to remove container root directory: ",
            FaberError::CreateDir { .. } => "Failed to create directory: ",
            FaberError::RemoveDir { .. } => "Failed to remove directory: ",
            FaberError::WriteFile { .. } => "Failed to write file: ",
            FaberError::MkDevDevice { .. } => "Failed to create dev device: ",
            FaberError::SetUid { .. } => "Failed to set user ID: ",
            FaberError::SetGid { .. } => "Failed to set group ID: ",
            FaberError::SetHostname { .. } => "Failed to set hostname: ",
            FaberError::CgroupControllersEnable { .. } => "Failed to enable cgroup controllers: ",
            FaberError::ParseResult { .. } => "Failed to parse result from child process: ",
            FaberError::ExecuteTask { .. } => "Failed to execute task: ",
            FaberError::GetStdout { .. } => "Failed to get stdout from task: ",
            FaberError::GetStderr { .. } => "Failed to get stderr from task: ",
            FaberError::WriteStdin { .. } => "Failed to write stdin to task: ",
            FaberError::GetExitCode { .. } => "Failed to get exit code from task: ",
            FaberError::TaskTimeout { .. } => "Task exceeded timeout limit: ",
        };
        let details: &String = match self {
            FaberError::Generic { message } => message,
            FaberError::PipeCreate { details } => details,
            FaberError::FdClose { details } => details,
            FaberError::Fork { details } => details,
            FaberError::Unshare { details } => details,
            FaberError::Mount { details } => details,
            FaberError::Umount { details } => details,
            FaberError::PivotRoot { details } => details,
            FaberError::Chdir { details } => details,
            FaberError::CreateContainerRootDir { details } => details,
            FaberError::RemoveContainerRootDir { details } => details,
            FaberError::CreateDir { details } => details,
            FaberError::RemoveDir { details } => details,
            FaberError::WriteFile { details } => details,
            FaberError::MkDevDevice { details } => details,
            FaberError::SetUid { details } => details,
            FaberError::SetGid { details } => details,
            FaberError::SetHostname { details } => details,
            FaberError::CgroupControllersEnable { details } => details,
            FaberError::ParseResult { details } => details,
            FaberError::ExecuteTask { details } => details,
            FaberError::GetStdout { details } => details,
            FaberError::GetStderr { details } => details,
            FaberError::WriteStdin { details } => details,
            FaberError::GetExitCode { details } => details,
            FaberError::TaskTimeout { details } => details,
        };
        let mut out = String::new();
        out.append(prefix);
        out.append(details.as_str());
        out
    }
}

} // verus!
