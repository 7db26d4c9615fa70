//! The task and history records the database stores, and the values it stores
//! them by.
use vstd::prelude::*;
use std::path::PathBuf;

use crate::text::{concat, eq_str, trim, trim_ws};

verus! {

/// The lifecycle state of a download task.
#[derive(Debug, Clone, Copy, PartialEq, Eq, Structural)]
pub enum TaskStatus {
    Pending,
    Downloading,
    Paused,
    Completed,
    Failed,
    Interrupted,
}

/// The name a status is stored under.
pub open spec fn status_name(s: TaskStatus) -> Seq<char> {
    match s {
        TaskStatus::Pending => "Pending"@,
        TaskStatus::Downloading => "Downloading"@,
        TaskStatus::Paused => "Paused"@,
        TaskStatus::Completed => "Completed"@,
        TaskStatus::Failed => "Failed"@,
        TaskStatus::Interrupted => "Interrupted"@,
    }
}

/// The status a stored name stands for; unknown names read as `Pending`.
pub open spec fn status_from_name(n: Seq<char>) -> TaskStatus {
    if n == "Downloading"@ {
        TaskStatus::Downloading
    } else if n == "Paused"@ {
        TaskStatus::Paused
    } else if n == "Completed"@ {
        TaskStatus::Completed
    } else if n == "Failed"@ {
        TaskStatus::Failed
    } else if n == "Interrupted"@ {
        TaskStatus::Interrupted
    } else {
        TaskStatus::Pending
    }
}

impl TaskStatus {
    /// The name this status is stored under.
    pub fn as_str(&self) -> (r: &'static str)
        ensures
            r@ == status_name(*self),
    {
        match self {
            TaskStatus::Pending => "Pending",
            TaskStatus::Downloading => "Downloading",
            TaskStatus::Paused => "Paused",
            TaskStatus::Completed => "Completed",
            TaskStatus::Failed => "Failed",
            TaskStatus::Interrupted => "Interrupted",
        }
    }

    /// The status a stored name stands for; unknown names read as `Pending`.
    pub fn from_name(s: &str) -> (r: TaskStatus)
        ensures
            r == status_from_name(s@),
    {
        if eq_str(s, "Downloading") {
            TaskStatus::Downloading
        } else if eq_str(s, "Paused") {
            TaskStatus::Paused
        } else if eq_str(s, "Completed") {
            TaskStatus::Completed
        } else if eq_str(s, "Failed") {
            TaskStatus::Failed
        } else if eq_str(s, "Interrupted") {
            TaskStatus::Interrupted
        } else {
            TaskStatus::Pending
        }
    }
}

impl<'a> From<&'a str> for TaskStatus {
    fn from(s: &'a str) -> (r: TaskStatus) {
        TaskStatus::from_name(s)
    }
}

impl<'a> vstd::std_specs::convert::FromSpecImpl<&'a str> for TaskStatus {
    open spec fn obeys_from_spec() -> bool {
        true
    }

    open spec fn from_spec(s: &'a str) -> TaskStatus {
        status_from_name(s@)
    }
}

/// Reading back the stored name of a status gives that status.
pub proof fn lemma_status_name_round_trip(s: TaskStatus)
    ensures
        status_from_name(status_name(s)) == s,
{
    reveal_strlit("Pending");
    reveal_strlit("Downloading");
    reveal_strlit("Paused");
    reveal_strlit("Completed");
    reveal_strlit("Failed");
    reveal_strlit("Interrupted");
    assert("Pending"@[0] != "Downloading"@[0]);
    assert("Pending"@[1] != "Paused"@[1]);
    assert("Pending"@[0] != "Completed"@[0]);
    assert("Pending"@[0] != "Failed"@[0]);
    assert("Pending"@[0] != "Interrupted"@[0]);
    assert("Paused"@[0] != "Downloading"@[0]);
    assert("Completed"@[0] != "Downloading"@[0]);
    assert("Completed"@[0] != "Paused"@[0]);
    assert("Failed"@[0] != "Downloading"@[0]);
    assert("Failed"@[0] != "Paused"@[0]);
    assert("Failed"@[0] != "Completed"@[0]);
    assert("Interrupted"@[0] != "Downloading"@[0]);
    assert("Interrupted"@[0] != "Paused"@[0]);
    assert("Interrupted"@[0] != "Completed"@[0]);
    assert("Interrupted"@[0] != "Failed"@[0]);
}

/// What a queued task does.
#[derive(Debug, Clone)]
pub enum TaskType {
    DownloadVideo { format_preset: String },
    DownloadAudio { audio_format: String },
    FetchMetadataOnly,
    ExtractThumbnail,
    ExtractSubtitles,
}

/// The database of settings, the download queue and the download history, at a path.
pub struct DbManager {
    db_path: PathBuf,
}

impl DbManager {
    /// The file the database lives in.
    pub closed spec fn path(&self) -> PathBuf {
        self.db_path
    }

    /// Creates a new database manager for the file at `path`.
    pub fn new(path: PathBuf) -> (r: Self)
        ensures
            r.path() == path,
    {
        Self { db_path: path }
    }

    /// The file the database lives in.
    pub fn db_path(&self) -> (r: &PathBuf)
        ensures
            *r == self.path(),
    {
        &self.db_path
    }
}

/// The `LIKE` pattern of a history search: the trimmed query between `%`
/// wildcards, or `None` for no query or a blank one.
pub open spec fn history_pattern(search: Option<Seq<char>>) -> Option<Seq<char>> {
    match search {
        Some(q) => if trim_ws(q).len() == 0 {
            None
        } else {
            Some("%"@ + trim_ws(q) + "%"@)
        },
        None => None,
    }
}

/// The `LIKE` pattern that a history search matches titles, URLs and sites with.
pub fn history_search_pattern(search_query: Option<&str>) -> (r: Option<String>)
    ensures
        match r {
            Some(p) => history_pattern(crate::url_normalizer::opt_str_view(search_query)) == Some(p@),
            None => history_pattern(crate::url_normalizer::opt_str_view(search_query)) is None,
        },
{
    match search_query {
        None => None,
        Some(q) => {
            let t = trim(q);
            if t.as_str().is_empty() {
                None
            } else {
                let with_start = concat("%", t.as_str());
                Some(concat(with_start.as_str(), "%"))
            }
        },
    }
}

} // verus!
