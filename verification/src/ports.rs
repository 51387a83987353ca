//! Ports through which the download worker reports to its runtime.

use vstd::prelude::*;

verus! {

/// Optional notice after a download finishes. A failing notice never changes
/// the task's completed state.
pub trait CompletionNotifier {
    fn completed(&self, song_title: &str, artist: &str);
}

/// The worker's status output. A state change updates the authoritative task
/// record first and is then broadcast; metadata warnings are only notices and do
/// not change a completed task. Event names and transport belong to the runtime.
pub trait DownloadProgressSink {
    fn progress(&self, task_id: &str, downloaded: u64, total: u64, speed: u64);

    fn file_complete(&self, task_id: &str);

    fn completed(&self, task_id: &str, final_path: &str, saf_folder_uri: Option<String>);

    fn error(&self, task_id: &str, message: &str);

    fn link_expired(&self, task_id: &str, current_offset: u64);

    fn metadata_error(&self, task_id: &str, message: &str);
}

/// A progress sink with a record of the errors reported through it, in order,
/// each as task id and message.
pub struct ReportingSink<'a, S: DownloadProgressSink> {
    sink: &'a S,
    reported: Ghost<Seq<(Seq<char>, Seq<char>)>>,
}

impl<'a, S: DownloadProgressSink> ReportingSink<'a, S> {
    /// The errors reported so far, oldest first.
    pub closed spec fn errors(&self) -> Seq<(Seq<char>, Seq<char>)> {
        self.reported@
    }

    /// Reports through `sink`, with nothing reported yet.
    pub fn new(sink: &'a S) -> (r: Self)
        ensures
            r.errors() == Seq::<(Seq<char>, Seq<char>)>::empty(),
    {
        ReportingSink { sink, reported: Ghost(Seq::empty()) }
    }

    /// Reports an error of the task to the sink.
    pub fn error(&mut self, task_id: &str, message: &str)
        ensures
            final(self).errors() == old(self).errors().push((task_id@, message@)),
    {
        self.sink.error(task_id, message);
        proof {
            self.reported@ = self.reported@.push((task_id@, message@));
        }
    }
}

/// Where to open a download file and from which offset. A plain path is the full
/// file path; in SAF mode it is the file name and the folder URI.
pub struct FileOpenRequest<'a> {
    pub task_id: &'a str,
    pub file_path: &'a str,
    pub is_saf: bool,
    pub saf_folder_uri: Option<&'a str>,
    pub downloaded: u64,
}

/// A post-processor for runtimes that handle no lyrics or tags.
pub struct NoopDownloadPostprocessor;

/// A notifier for runtimes without system notifications.
pub struct NoopCompletionNotifier;

impl CompletionNotifier for NoopCompletionNotifier {
    fn completed(&self, song_title: &str, artist: &str) {
    }
}

} // verus!
