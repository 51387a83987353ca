//! Deleting plain files.

use vstd::prelude::*;

verus! {

/// Deletes plain files; the container runtime uses it directly.
pub struct LocalFileDeleter;

/// How a removal ended.
pub enum RemovalResult {
    Removed,
    /// The file was not there.
    NotFound,
    /// Another failure, with its message.
    Failed(String),
}

/// The outcome of deleting a file: a file already gone is no failure, since the
/// user may have deleted it by hand while the task record stayed.
pub fn deletion_outcome(result: RemovalResult) -> (r: Result<(), String>)
    ensures
        match result {
            RemovalResult::Removed => r is Ok,
            RemovalResult::NotFound => r is Ok,
            RemovalResult::Failed(e) => r is Err && r->Err_0@ == "删除文件失败: "@ + e@,
        },
{
    match result {
        RemovalResult::Removed => Ok(()),
        RemovalResult::NotFound => Ok(()),
        RemovalResult::Failed(e) => {
            let mut m = String::from_str("删除文件失败: ");
            m.append(e.as_str());
            Err(m)
        },
    }
}

} // verus!
