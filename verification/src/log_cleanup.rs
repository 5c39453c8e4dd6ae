use vstd::prelude::*;

use crate::text::str_equal;

verus! {

/// Deletes old log files from a directory.
pub struct LogCleanupManager {
    log_dir: String,
}

/// What a cleanup deleted.
#[derive(Debug, Clone, Copy)]
pub struct CleanupTally {
    pub deleted_count: u64,
    pub deleted_size: u64,
}

/// The age in seconds beyond which files are deleted: `retention_days` days.
pub open spec fn retention_span(retention_days: u64) -> int {
    retention_days * 86400
}

/// Whether a directory entry is deleted: a file with extension `log` or `txt` that
/// was last modified before the cutoff.
pub open spec fn is_deleted(is_file: bool, extension: Option<Seq<char>>, older_than_cutoff: bool) -> bool {
    is_file && older_than_cutoff && (extension == Some("log"@) || extension == Some("txt"@))
}

impl LogCleanupManager {
    /// The directory cleaned.
    pub closed spec fn dir(&self) -> Seq<char> {
        self.log_dir@
    }

    /// A cleaner of the directory `log_dir`.
    pub fn new(log_dir: String) -> (r: LogCleanupManager)
        ensures
            r.dir() == log_dir@,
    {
        LogCleanupManager { log_dir }
    }

    /// The directory cleaned.
    pub fn log_dir(&self) -> (r: &str)
        ensures
            r@ == self.dir(),
    {
        self.log_dir.as_str()
    }

    /// The age in seconds beyond which files are deleted.
    pub fn retention_secs(retention_days: u64) -> (r: u64)
        requires
            retention_span(retention_days) <= u64::MAX,
        ensures
            r == retention_span(retention_days),
    {
        retention_days * 86400
    }

    /// Whether a directory entry is to be deleted.
    pub fn should_delete(is_file: bool, extension: Option<&str>, older_than_cutoff: bool) -> (r: bool)
        ensures
            r == is_deleted(
                is_file,
                match extension {
                    Some(e) => Some(e@),
                    None => None,
                },
                older_than_cutoff,
            ),
    {
        if !is_file || !older_than_cutoff {
            return false;
        }
        match extension {
            Some(e) => str_equal(e, "log") || str_equal(e, "txt"),
            None => false,
        }
    }
}

impl CleanupTally {
    /// Nothing deleted yet.
    pub fn new() -> (r: CleanupTally)
        ensures
            r.deleted_count == 0,
            r.deleted_size == 0,
    {
        CleanupTally { deleted_count: 0, deleted_size: 0 }
    }

    /// Whether one more file of `size` bytes can be counted.
    pub fn can_record(&self, size: u64) -> (r: bool)
        ensures
            r == (self.deleted_count < u64::MAX && self.deleted_size + size <= u64::MAX),
    {
        self.deleted_count < u64::MAX && size <= u64::MAX - self.deleted_size
    }

    /// Counts one more deleted file of `size` bytes.
    pub fn record(&mut self, size: u64)
        requires
            old(self).deleted_count < u64::MAX,
            old(self).deleted_size + size <= u64::MAX,
        ensures
            final(self).deleted_count == old(self).deleted_count + 1,
            final(self).deleted_size == old(self).deleted_size + size,
    {
        self.deleted_count = self.deleted_count + 1;
        self.deleted_size = self.deleted_size + size;
    }
}

/// Only old log files are deleted: an entry modified after the cutoff is kept, and
/// so is a directory or a file of any other extension; a file with extension `log`
/// or `txt` modified before the cutoff is deleted.
pub proof fn law_only_old_log_files_deleted(is_file: bool, extension: Option<Seq<char>>, older_than_cutoff: bool)
    ensures
        !older_than_cutoff ==> !is_deleted(is_file, extension, older_than_cutoff),
        !is_file ==> !is_deleted(is_file, extension, older_than_cutoff),
        extension != Some("log"@) && extension != Some("txt"@) ==> !is_deleted(
            is_file,
            extension,
            older_than_cutoff,
        ),
        is_file && older_than_cutoff && (extension == Some("log"@) || extension == Some("txt"@))
            ==> is_deleted(is_file, extension, older_than_cutoff),
{
}

} // verus!
