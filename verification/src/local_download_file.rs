//! Opening a plain download file so that a resumed download lines up with what
//! is already on disk.

use vstd::prelude::*;

verus! {

/// Why a file could not be opened: the step that failed, the message shown to
/// the user, and the underlying I/O error's text.
#[derive(Debug)]
pub struct LocalFileOpenError {
    pub operation: &'static str,
    pub user_message: &'static str,
    pub source: String,
}

/// The file adapter of the stand-alone runtime.
pub struct LocalDownloadFileOpener;

/// How a download file is opened.
#[derive(Debug, Clone, Copy, PartialEq, Eq, Structural)]
pub enum OpenMode {
    /// Create or empty the file and write from the start.
    Truncate,
    /// Append to the existing file.
    Append,
}

/// How to open the file for a transfer that has `downloaded` bytes: nothing
/// downloaded means a fresh file, otherwise the existing part is appended to.
pub fn open_mode(downloaded: u64) -> (r: OpenMode)
    ensures
        r == (if downloaded == 0 {
            OpenMode::Truncate
        } else {
            OpenMode::Append
        }),
{
    if downloaded == 0 {
        OpenMode::Truncate
    } else {
        OpenMode::Append
    }
}

/// Whether an appended file must be emptied and the download restarted: when its
/// length cannot be read, or it is shorter than the offset (the audio would be
/// misaligned). A longer file is still appended to; the HTTP range handles it.
pub fn must_reset(file_len: Option<u64>, downloaded: u64) -> (r: bool)
    ensures
        r == match file_len {
            Some(n) => n < downloaded,
            None => true,
        },
{
    match file_len {
        Some(n) => n < downloaded,
        None => true,
    }
}

/// The error for a fresh file that could not be created.
pub fn create_failed(source: String) -> (r: LocalFileOpenError)
    ensures
        r.operation@ == "文件创建失败"@,
        r.user_message@ == "无法创建下载文件，请检查磁盘空间或下载目录的创建/写入权限"@,
        r.source@ == source@,
{
    LocalFileOpenError {
        operation: "文件创建失败",
        user_message: "无法创建下载文件，请检查磁盘空间或下载目录的创建/写入权限",
        source,
    }
}

/// The error for an existing file that could not be opened.
pub fn open_failed(source: String) -> (r: LocalFileOpenError)
    ensures
        r.operation@ == "文件打开失败"@,
        r.user_message@ == "文件访问失败"@,
        r.source@ == source@,
{
    LocalFileOpenError { operation: "文件打开失败", user_message: "文件访问失败", source }
}

/// The error for a file that could not be emptied for a restart.
pub fn reset_failed(source: String) -> (r: LocalFileOpenError)
    ensures
        r.operation@ == "文件重置失败"@,
        r.user_message@ == "文件异常，请重试"@,
        r.source@ == source@,
{
    LocalFileOpenError { operation: "文件重置失败", user_message: "文件异常，请重试", source }
}

impl LocalFileOpenError {
    /// The error as logged: the step, then the I/O error.
    pub fn to_text(&self) -> (r: String)
        ensures
            r@ == self.operation@ + ": "@ + self.source@,
    {
        let mut m = String::from_str(self.operation);
        m.append(": ");
        m.append(self.source.as_str());
        m
    }
}

/// The message when the plain file adapter is handed a SAF path.
pub fn saf_not_supported_message() -> (r: &'static str)
    ensures
        r@ == "普通文件适配器不支持 SAF 路径"@,
{
    "普通文件适配器不支持 SAF 路径"
}

} // verus!
