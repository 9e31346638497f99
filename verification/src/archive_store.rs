//! The records of the local archive and the rules that the store applies to them: status
//! names, relative file references, target account import and export, album grouping and the
//! state of persistent collection tasks.
//!
//! The store itself keeps these records in SQLite and on disk; this module holds what it
//! decides.
use vstd::prelude::*;

use crate::text::{chars_of, string_of};

verus! {

/// The file name of the SQLite database under the application data directory.
pub const DEFAULT_DATABASE_FILE_NAME: &'static str = "archive.sqlite";

/// The name of the archive directory under the application data directory.
pub const DEFAULT_ARCHIVE_DIR_NAME: &'static str = "archive";

/// The format tag of a target account export.
pub const TARGET_ACCOUNT_EXPORT_FORMAT: &'static str = "wechat-article-exporter.target-accounts.v1";

/// The schema version that the store migrates to.
pub const SCHEMA_VERSION: i64 = 5;

/// `PathBuf::join` on a Unix-style path: `name` after `dir` with one `/` between them, or
/// `name` alone when it is absolute or `dir` is empty.
pub open spec fn join_path(dir: Seq<char>, name: Seq<char>) -> Seq<char> {
    if name.len() > 0 && name[0] == '/' {
        name
    } else if dir.len() == 0 || dir.last() == '/' {
        dir + name
    } else {
        dir + seq!['/'] + name
    }
}

/// `dir` joined with `name`.
pub fn join_path_exec(dir: &str, name: &str) -> (r: String)
    ensures
        r@ == join_path(dir@, name@),
{
    let d = chars_of(dir);
    let n = chars_of(name);
    let mut out = d.clone();
    if n.len() > 0 && n[0] == '/' {
        return string_of(n.as_slice());
    }
    if !(d.len() == 0 || d[d.len() - 1] == '/') {
        out.push('/');
    }
    crate::text::push_all(&mut out, &n);
    assert(d@.len() == 0 || d@.last() == '/' ==> out@ =~= d@ + n@);
    assert(!(d@.len() == 0 || d@.last() == '/') ==> out@ =~= d@ + seq!['/'] + n@);
    string_of(out.as_slice())
}

/// Where the store keeps its database and its archive directory.
#[derive(Clone, Debug, Eq, PartialEq)]
pub struct ArchiveStoreConfig {
    pub database_path: String,
    pub archive_dir: String,
}

impl ArchiveStoreConfig {
    /// The default layout under the application data directory: `archive.sqlite` and
    /// `archive/`.
    pub fn from_app_data_dir(app_data_dir: &str) -> (r: Self)
        ensures
            r.database_path@ == join_path(app_data_dir@, DEFAULT_DATABASE_FILE_NAME@),
            r.archive_dir@ == join_path(app_data_dir@, DEFAULT_ARCHIVE_DIR_NAME@),
    {
        ArchiveStoreConfig {
            database_path: join_path_exec(app_data_dir, DEFAULT_DATABASE_FILE_NAME),
            archive_dir: join_path_exec(app_data_dir, DEFAULT_ARCHIVE_DIR_NAME),
        }
    }
}

#[derive(Clone, Debug, Eq, PartialEq)]
pub struct ArchiveStoreSettings {
    pub archive_dir: String,
}

#[derive(Clone, Debug, Eq, PartialEq)]
pub struct ArchiveStoreSnapshot {
    pub database_path: String,
    pub archive_dir: String,
    pub schema_version: i64,
}

#[derive(Clone, Debug, Eq, PartialEq)]
pub struct ArchiveArticleInput {
    pub article_id: String,
    pub target_account_id: String,
    pub title: String,
    pub source_url: String,
    pub html_file: Option<String>,
    pub markdown_file: Option<String>,
}

#[derive(Clone, Debug, Eq, PartialEq)]
pub struct ArchiveArticle {
    pub article_id: String,
    pub target_account_id: String,
    pub title: String,
    pub source_url: String,
    pub html_file: Option<String>,
    pub markdown_file: Option<String>,
    /// The reading data last fetched for the article, if any.
    pub reading_enrichment: Option<crate::article_reading_enrichment::ArticleReadingEnrichment>,
    /// The comments of that reading data.
    pub reading_comments: Vec<crate::article_reading_enrichment::ArticleReadingCommentInput>,
}

#[derive(Clone, Debug, Eq, PartialEq)]
pub struct TargetAccountInput {
    pub fakeid: String,
    pub nickname: String,
    pub alias: String,
    pub round_head_img: String,
    pub service_type: i64,
    pub signature: String,
}

#[derive(Clone, Debug, Eq, PartialEq)]
pub struct TargetAccountExport {
    pub format: String,
    pub accounts: Vec<TargetAccountInput>,
}

#[derive(Clone, Debug, Eq, PartialEq)]
pub struct TargetArticleAlbumInfo {
    pub album_id: i64,
    pub id: String,
    pub tag_source: i64,
    pub title: String,
}

#[derive(Clone, Debug, Eq, PartialEq)]
pub struct TargetArticleInput {
    pub article_id: String,
    pub target_account_id: String,
    pub title: String,
    pub source_url: String,
    pub digest: String,
    pub author_name: String,
    pub cover: String,
    pub appmsgid: i64,
    pub itemidx: i64,
    pub item_show_type: i64,
    pub create_time: i64,
    pub update_time: i64,
    pub is_deleted: bool,
    pub copyright_type: i64,
    pub album_infos: Vec<TargetArticleAlbumInfo>,
}



/// What the store refuses on the archive's own rules.
#[derive(Clone, Debug, Eq, PartialEq)]
pub enum ArchiveStoreError {
    InvalidRelativePath(String),
    MissingSettings,
    NonUtf8Path(String),
    InvalidArticleListSyncStatus(String),
    InvalidCollectionTaskItemStatus(String),
    InvalidCollectionTaskStatus(String),
    InvalidCollectionTaskType(String),
    UnsupportedTargetAccountExportFormat(String),
    CollectionTaskItemNotFound(String),
    DuplicateCollectionTaskItem(String),
}

impl ArchiveStoreError {
    /// The message shown for the error.
    pub fn message(&self) -> (r: String)
        ensures
            self matches ArchiveStoreError::InvalidRelativePath(p) ==> r@
                == "archive file reference must be relative: "@ + p@,
            self is MissingSettings ==> r@ == "archive store settings have not been saved"@,
            self matches ArchiveStoreError::NonUtf8Path(p) ==> r@
                == "archive store path must be valid UTF-8: "@ + p@,
            self matches ArchiveStoreError::InvalidArticleListSyncStatus(v) ==> r@
                == "invalid article list sync status: "@ + v@,
            self matches ArchiveStoreError::InvalidCollectionTaskItemStatus(v) ==> r@
                == "invalid collection task item status: "@ + v@,
            self matches ArchiveStoreError::InvalidCollectionTaskStatus(v) ==> r@
                == "invalid collection task status: "@ + v@,
            self matches ArchiveStoreError::InvalidCollectionTaskType(v) ==> r@
                == "invalid collection task type: "@ + v@,
            self matches ArchiveStoreError::UnsupportedTargetAccountExportFormat(v) ==> r@
                == "unsupported target account export format: "@ + v@,
            self matches ArchiveStoreError::CollectionTaskItemNotFound(v) ==> r@
                == "collection task item was not found: "@ + v@,
            self matches ArchiveStoreError::DuplicateCollectionTaskItem(v) ==> r@
                == "collection task item is listed twice: "@ + v@,
    {
        if let ArchiveStoreError::MissingSettings = self {
            return String::from_str("archive store settings have not been saved");
        }
        let (prefix, detail) = match self {
            ArchiveStoreError::InvalidRelativePath(p) => (
                "archive file reference must be relative: ",
                p.as_str(),
            ),
            ArchiveStoreError::MissingSettings => ("archive store settings have not been saved", ""),
            ArchiveStoreError::NonUtf8Path(p) => ("archive store path must be valid UTF-8: ", p.as_str()),
            ArchiveStoreError::InvalidArticleListSyncStatus(s) => (
                "invalid article list sync status: ",
                s.as_str(),
            ),
            ArchiveStoreError::InvalidCollectionTaskItemStatus(s) => (
                "invalid collection task item status: ",
                s.as_str(),
            ),
            ArchiveStoreError::InvalidCollectionTaskStatus(s) => (
                "invalid collection task status: ",
                s.as_str(),
            ),
            ArchiveStoreError::InvalidCollectionTaskType(s) => (
                "invalid collection task type: ",
                s.as_str(),
            ),
            ArchiveStoreError::UnsupportedTargetAccountExportFormat(s) => (
                "unsupported target account export format: ",
                s.as_str(),
            ),
            ArchiveStoreError::CollectionTaskItemNotFound(s) => (
                "collection task item was not found: ",
                s.as_str(),
            ),
            ArchiveStoreError::DuplicateCollectionTaskItem(s) => (
                "collection task item is listed twice: ",
                s.as_str(),
            ),
        };
        let mut out = chars_of(prefix);
        crate::text::push_all(&mut out, &chars_of(detail));
        string_of(out.as_slice())
    }
}

/// Two strings hold the same text.
pub fn str_eq(a: &str, b: &str) -> (r: bool)
    ensures
        r == (a@ == b@),
{
    crate::text::chars_eq(&chars_of(a), &chars_of(b))
}

#[derive(Clone, Copy, Debug, Eq, PartialEq, Structural)]
pub enum ArticleListSyncStatus {
    Running,
    Completed,
    Failed,
}

impl ArticleListSyncStatus {
    /// The name stored in the database.
    pub open spec fn database_name(self) -> Seq<char> {
        match self {
            ArticleListSyncStatus::Running => "running"@,
            ArticleListSyncStatus::Completed => "completed"@,
            ArticleListSyncStatus::Failed => "failed"@,
        }
    }

    /// The name stored in the database.
    pub fn as_database_value(self) -> (r: &'static str)
        ensures
            r@ == self.database_name(),
    {
        match self {
            ArticleListSyncStatus::Running => "running",
            ArticleListSyncStatus::Completed => "completed",
            ArticleListSyncStatus::Failed => "failed",
        }
    }

    /// The status that the database name `value` stands for.
    pub fn from_database_value(value: &str) -> (r: Result<Self, ArchiveStoreError>)
        ensures
            r matches Ok(s) ==> s.database_name() == value@,
            r is Err ==> (forall|s: Self| s.database_name() != value@),
            r is Err ==> (r matches Err(ArchiveStoreError::InvalidArticleListSyncStatus(v))
                && v@ == value@),
    {
        proof {
            reveal_strlit("running");
            reveal_strlit("completed");
            reveal_strlit("failed");
        }
        if str_eq(value, "running") {
            Ok(ArticleListSyncStatus::Running)
        } else if str_eq(value, "completed") {
            Ok(ArticleListSyncStatus::Completed)
        } else if str_eq(value, "failed") {
            Ok(ArticleListSyncStatus::Failed)
        } else {
            proof {
                assert forall|s: Self| s.database_name() != value@ by {
                    match s {
                        ArticleListSyncStatus::Running => {},
                        ArticleListSyncStatus::Completed => {},
                        ArticleListSyncStatus::Failed => {},
                    }
                }
            }
            Err(ArchiveStoreError::InvalidArticleListSyncStatus(String::from_str(value)))
        }
    }
}

} // verus!

verus! {

#[derive(Clone, Copy, Debug, Eq, PartialEq, Structural)]
pub enum CollectionTaskType {
    AccountArticleSync,
    ArticleHtmlDownload,
    AlbumDownload,
    Export,
}

impl CollectionTaskType {
    /// The name stored in the database.
    pub open spec fn database_name(self) -> Seq<char> {
        match self {
            CollectionTaskType::AccountArticleSync => "account_article_sync"@,
            CollectionTaskType::ArticleHtmlDownload => "article_html_download"@,
            CollectionTaskType::AlbumDownload => "album_download"@,
            CollectionTaskType::Export => "export"@,
        }
    }

    /// The name stored in the database.
    pub fn as_database_value(self) -> (r: &'static str)
        ensures
            r@ == self.database_name(),
    {
        match self {
            CollectionTaskType::AccountArticleSync => "account_article_sync",
            CollectionTaskType::ArticleHtmlDownload => "article_html_download",
            CollectionTaskType::AlbumDownload => "album_download",
            CollectionTaskType::Export => "export",
        }
    }

    /// The task type that the database name `value` stands for.
    pub fn from_database_value(value: &str) -> (r: Result<Self, ArchiveStoreError>)
        ensures
            r matches Ok(t) ==> t.database_name() == value@,
            r is Err ==> (forall|t: Self| t.database_name() != value@),
            r is Err ==> (r matches Err(ArchiveStoreError::InvalidCollectionTaskType(v)) && v@
                == value@),
    {
        proof {
            reveal_strlit("account_article_sync");
            reveal_strlit("article_html_download");
            reveal_strlit("album_download");
            reveal_strlit("export");
        }
        if str_eq(value, "account_article_sync") {
            Ok(CollectionTaskType::AccountArticleSync)
        } else if str_eq(value, "article_html_download") {
            Ok(CollectionTaskType::ArticleHtmlDownload)
        } else if str_eq(value, "album_download") {
            Ok(CollectionTaskType::AlbumDownload)
        } else if str_eq(value, "export") {
            Ok(CollectionTaskType::Export)
        } else {
            proof {
                assert forall|t: Self| t.database_name() != value@ by {
                    match t {
                        CollectionTaskType::AccountArticleSync => {},
                        CollectionTaskType::ArticleHtmlDownload => {},
                        CollectionTaskType::AlbumDownload => {},
                        CollectionTaskType::Export => {},
                    }
                }
            }
            Err(ArchiveStoreError::InvalidCollectionTaskType(String::from_str(value)))
        }
    }
}

#[derive(Clone, Copy, Debug, Eq, PartialEq, Structural)]
pub enum CollectionTaskStatus {
    Waiting,
    Running,
    Paused,
    Cancelled,
    Succeeded,
    Failed,
}

impl CollectionTaskStatus {
    /// The name stored in the database.
    pub open spec fn database_name(self) -> Seq<char> {
        match self {
            CollectionTaskStatus::Waiting => "waiting"@,
            CollectionTaskStatus::Running => "running"@,
            CollectionTaskStatus::Paused => "paused"@,
            CollectionTaskStatus::Cancelled => "cancelled"@,
            CollectionTaskStatus::Succeeded => "succeeded"@,
            CollectionTaskStatus::Failed => "failed"@,
        }
    }

    /// The name stored in the database.
    pub fn as_database_value(self) -> (r: &'static str)
        ensures
            r@ == self.database_name(),
    {
        match self {
            CollectionTaskStatus::Waiting => "waiting",
            CollectionTaskStatus::Running => "running",
            CollectionTaskStatus::Paused => "paused",
            CollectionTaskStatus::Cancelled => "cancelled",
            CollectionTaskStatus::Succeeded => "succeeded",
            CollectionTaskStatus::Failed => "failed",
        }
    }

    /// The task status that the database name `value` stands for.
    pub fn from_database_value(value: &str) -> (r: Result<Self, ArchiveStoreError>)
        ensures
            r matches Ok(t) ==> t.database_name() == value@,
            r is Err ==> (forall|t: Self| t.database_name() != value@),
            r is Err ==> (r matches Err(ArchiveStoreError::InvalidCollectionTaskStatus(v)) && v@
                == value@),
    {
        proof {
            reveal_strlit("waiting");
            reveal_strlit("running");
            reveal_strlit("paused");
            reveal_strlit("cancelled");
            reveal_strlit("succeeded");
            reveal_strlit("failed");
        }
        if str_eq(value, "waiting") {
            Ok(CollectionTaskStatus::Waiting)
        } else if str_eq(value, "running") {
            Ok(CollectionTaskStatus::Running)
        } else if str_eq(value, "paused") {
            Ok(CollectionTaskStatus::Paused)
        } else if str_eq(value, "cancelled") {
            Ok(CollectionTaskStatus::Cancelled)
        } else if str_eq(value, "succeeded") {
            Ok(CollectionTaskStatus::Succeeded)
        } else if str_eq(value, "failed") {
            Ok(CollectionTaskStatus::Failed)
        } else {
            proof {
                assert forall|t: Self| t.database_name() != value@ by {
                    match t {
                        CollectionTaskStatus::Waiting => {},
                        CollectionTaskStatus::Running => {},
                        CollectionTaskStatus::Paused => {},
                        CollectionTaskStatus::Cancelled => {},
                        CollectionTaskStatus::Succeeded => {},
                        CollectionTaskStatus::Failed => {},
                    }
                }
            }
            Err(ArchiveStoreError::InvalidCollectionTaskStatus(String::from_str(value)))
        }
    }
}

#[derive(Clone, Copy, Debug, Eq, PartialEq, Structural)]
pub enum CollectionTaskItemStatus {
    Waiting,
    Running,
    Cancelled,
    Succeeded,
    Failed,
}

impl CollectionTaskItemStatus {
    /// The name stored in the database.
    pub open spec fn database_name(self) -> Seq<char> {
        match self {
            CollectionTaskItemStatus::Waiting => "waiting"@,
            CollectionTaskItemStatus::Running => "running"@,
            CollectionTaskItemStatus::Cancelled => "cancelled"@,
            CollectionTaskItemStatus::Succeeded => "succeeded"@,
            CollectionTaskItemStatus::Failed => "failed"@,
        }
    }

    /// The name stored in the database.
    pub fn as_database_value(self) -> (r: &'static str)
        ensures
            r@ == self.database_name(),
    {
        match self {
            CollectionTaskItemStatus::Waiting => "waiting",
            CollectionTaskItemStatus::Running => "running",
            CollectionTaskItemStatus::Cancelled => "cancelled",
            CollectionTaskItemStatus::Succeeded => "succeeded",
            CollectionTaskItemStatus::Failed => "failed",
        }
    }

    /// The item status that the database name `value` stands for.
    pub fn from_database_value(value: &str) -> (r: Result<Self, ArchiveStoreError>)
        ensures
            r matches Ok(t) ==> t.database_name() == value@,
            r is Err ==> (forall|t: Self| t.database_name() != value@),
            r is Err ==> (r matches Err(ArchiveStoreError::InvalidCollectionTaskItemStatus(v))
                && v@ == value@),
    {
        proof {
            reveal_strlit("waiting");
            reveal_strlit("running");
            reveal_strlit("cancelled");
            reveal_strlit("succeeded");
            reveal_strlit("failed");
        }
        if str_eq(value, "waiting") {
            Ok(CollectionTaskItemStatus::Waiting)
        } else if str_eq(value, "running") {
            Ok(CollectionTaskItemStatus::Running)
        } else if str_eq(value, "cancelled") {
            Ok(CollectionTaskItemStatus::Cancelled)
        } else if str_eq(value, "succeeded") {
            Ok(CollectionTaskItemStatus::Succeeded)
        } else if str_eq(value, "failed") {
            Ok(CollectionTaskItemStatus::Failed)
        } else {
            proof {
                assert forall|t: Self| t.database_name() != value@ by {
                    match t {
                        CollectionTaskItemStatus::Waiting => {},
                        CollectionTaskItemStatus::Running => {},
                        CollectionTaskItemStatus::Cancelled => {},
                        CollectionTaskItemStatus::Succeeded => {},
                        CollectionTaskItemStatus::Failed => {},
                    }
                }
            }
            Err(ArchiveStoreError::InvalidCollectionTaskItemStatus(String::from_str(value)))
        }
    }

    /// A status that an attempt at the item reaches: running, succeeded or failed.
    pub open spec fn is_attempt(self) -> bool {
        self == CollectionTaskItemStatus::Running || self == CollectionTaskItemStatus::Succeeded
            || self == CollectionTaskItemStatus::Failed
    }

    /// Whether the status is reached by an attempt at the item.
    pub fn is_attempt_status(self) -> (r: bool)
        ensures
            r == self.is_attempt(),
    {
        match self {
            CollectionTaskItemStatus::Running => true,
            CollectionTaskItemStatus::Succeeded => true,
            CollectionTaskItemStatus::Failed => true,
            _ => false,
        }
    }
}

/// The names of the statuses and types read back as what was written, and no two share a name.
pub proof fn lemma_database_names_round_trip()
    ensures
        forall|a: ArticleListSyncStatus, b: ArticleListSyncStatus|
            a.database_name() == b.database_name() ==> a == b,
        forall|a: CollectionTaskType, b: CollectionTaskType|
            a.database_name() == b.database_name() ==> a == b,
        forall|a: CollectionTaskStatus, b: CollectionTaskStatus|
            a.database_name() == b.database_name() ==> a == b,
        forall|a: CollectionTaskItemStatus, b: CollectionTaskItemStatus|
            a.database_name() == b.database_name() ==> a == b,
{
    reveal_strlit("running");
    reveal_strlit("completed");
    reveal_strlit("failed");
    reveal_strlit("account_article_sync");
    reveal_strlit("article_html_download");
    reveal_strlit("album_download");
    reveal_strlit("export");
    reveal_strlit("waiting");
    reveal_strlit("paused");
    reveal_strlit("cancelled");
    reveal_strlit("succeeded");
    assert forall|a: ArticleListSyncStatus, b: ArticleListSyncStatus|
        a.database_name() == b.database_name() implies a == b by {
        assert(a.database_name().len() == b.database_name().len());
        assert(a.database_name()[0] == b.database_name()[0]);
    }
    assert forall|a: CollectionTaskType, b: CollectionTaskType|
        a.database_name() == b.database_name() implies a == b by {
        assert(a.database_name().len() == b.database_name().len());
    }
    assert forall|a: CollectionTaskStatus, b: CollectionTaskStatus|
        a.database_name() == b.database_name() implies a == b by {
        assert(a.database_name().len() == b.database_name().len());
        assert(a.database_name()[0] == b.database_name()[0]);
    }
    assert forall|a: CollectionTaskItemStatus, b: CollectionTaskItemStatus|
        a.database_name() == b.database_name() implies a == b by {
        assert(a.database_name().len() == b.database_name().len());
        assert(a.database_name()[0] == b.database_name()[0]);
    }
}

} // verus!

verus! {

#[derive(Clone, Debug, Eq, PartialEq)]
pub struct CollectionTaskItemInput {
    pub item_id: String,
    pub item_type: String,
    pub payload_json: String,
}

#[derive(Clone, Debug, Eq, PartialEq)]
pub struct CollectionTaskItem {
    pub task_id: String,
    pub item_id: String,
    pub item_type: String,
    pub status: CollectionTaskItemStatus,
    pub payload_json: String,
    pub error_message: Option<String>,
    pub attempts: u32,
}

#[derive(Clone, Debug, Eq, PartialEq)]
pub struct CollectionTask {
    pub task_id: String,
    pub task_type: CollectionTaskType,
    pub target_account_id: Option<String>,
    pub status: CollectionTaskStatus,
    pub total_items: u32,
    pub waiting_items: u32,
    pub running_items: u32,
    pub succeeded_items: u32,
    pub failed_items: u32,
    pub cancelled_items: u32,
    pub error_message: Option<String>,
    pub items: Vec<CollectionTaskItem>,
}

/// How many items of a task stand in each status.
#[derive(Clone, Copy, Debug)]
pub struct CollectionTaskCounts {
    pub total: u32,
    pub waiting: u32,
    pub running: u32,
    pub succeeded: u32,
    pub failed: u32,
    pub cancelled: u32,
}

/// How many of `items` have the status `s`.
pub open spec fn count_of(items: Seq<CollectionTaskItem>, s: CollectionTaskItemStatus) -> nat
    decreases items.len(),
{
    if items.len() == 0 {
        0
    } else {
        count_of(items.drop_last(), s) + if items.last().status == s {
            1nat
        } else {
            0nat
        }
    }
}

impl CollectionTaskCounts {
    /// The counts are those of `items`.
    pub open spec fn counts(self, items: Seq<CollectionTaskItem>) -> bool {
        &&& self.total == items.len()
        &&& self.waiting == count_of(items, CollectionTaskItemStatus::Waiting)
        &&& self.running == count_of(items, CollectionTaskItemStatus::Running)
        &&& self.succeeded == count_of(items, CollectionTaskItemStatus::Succeeded)
        &&& self.failed == count_of(items, CollectionTaskItemStatus::Failed)
        &&& self.cancelled == count_of(items, CollectionTaskItemStatus::Cancelled)
    }
}

/// The counts of every status add up to the number of items.
pub proof fn lemma_counts_add_up(items: Seq<CollectionTaskItem>)
    ensures
        count_of(items, CollectionTaskItemStatus::Waiting) + count_of(
            items,
            CollectionTaskItemStatus::Running,
        ) + count_of(items, CollectionTaskItemStatus::Succeeded) + count_of(
            items,
            CollectionTaskItemStatus::Failed,
        ) + count_of(items, CollectionTaskItemStatus::Cancelled) == items.len(),
    decreases items.len(),
{
    if items.len() > 0 {
        lemma_counts_add_up(items.drop_last());
    }
}

/// The status of a task from the counts of its items: waiting when it has none; failed when
/// one failed; when one runs or succeeded, succeeded once all are succeeded or cancelled and
/// running before; cancelled when all are cancelled; waiting otherwise.
pub open spec fn inferred_status(c: CollectionTaskCounts) -> CollectionTaskStatus {
    if c.total == 0 {
        CollectionTaskStatus::Waiting
    } else if c.failed > 0 {
        CollectionTaskStatus::Failed
    } else if c.running > 0 || c.succeeded > 0 {
        if c.succeeded + c.cancelled == c.total {
            CollectionTaskStatus::Succeeded
        } else {
            CollectionTaskStatus::Running
        }
    } else if c.cancelled == c.total {
        CollectionTaskStatus::Cancelled
    } else {
        CollectionTaskStatus::Waiting
    }
}

/// The status that a task's item counts give it.
pub fn infer_collection_task_status(counts: CollectionTaskCounts) -> (r: CollectionTaskStatus)
    requires
        counts.succeeded + counts.cancelled <= u32::MAX,
    ensures
        r == inferred_status(counts),
{
    if counts.total == 0 {
        CollectionTaskStatus::Waiting
    } else if counts.failed > 0 {
        CollectionTaskStatus::Failed
    } else if counts.running > 0 || counts.succeeded > 0 {
        if counts.succeeded + counts.cancelled == counts.total {
            CollectionTaskStatus::Succeeded
        } else {
            CollectionTaskStatus::Running
        }
    } else if counts.cancelled == counts.total {
        CollectionTaskStatus::Cancelled
    } else {
        CollectionTaskStatus::Waiting
    }
}

/// The counts of `items` by status.
pub fn collection_task_counts(items: &Vec<CollectionTaskItem>) -> (r: CollectionTaskCounts)
    requires
        items.len() <= u32::MAX,
    ensures
        r.counts(items@),
{
    let mut c = CollectionTaskCounts {
        total: 0,
        waiting: 0,
        running: 0,
        succeeded: 0,
        failed: 0,
        cancelled: 0,
    };
    let mut k: usize = 0;
    while k < items.len()
        invariant
            k <= items.len() <= u32::MAX,
            c.counts(items@.take(k as int)),
        decreases items.len() - k,
    {
        proof {
            assert(items@.take(k + 1).drop_last() =~= items@.take(k as int));
            lemma_counts_add_up(items@.take(k as int));
        }
        c.total = c.total + 1;
        match items[k].status {
            CollectionTaskItemStatus::Waiting => c.waiting = c.waiting + 1,
            CollectionTaskItemStatus::Running => c.running = c.running + 1,
            CollectionTaskItemStatus::Succeeded => c.succeeded = c.succeeded + 1,
            CollectionTaskItemStatus::Failed => c.failed = c.failed + 1,
            CollectionTaskItemStatus::Cancelled => c.cancelled = c.cancelled + 1,
        }
        k = k + 1;
    }
    assert(items@.take(items.len() as int) =~= items@);
    c
}

/// The attempts of an item after it moves from `previous` to `status`: one more when it
/// enters an attempt (running, succeeded or failed) from a status that is not one. The store
/// keeps the count as a 64-bit integer and reads it back truncated to a `u32`, so past
/// `u32::MAX` the count read back starts again at 0.
pub open spec fn next_attempts(previous: CollectionTaskItemStatus, attempts: u32, status: CollectionTaskItemStatus) -> u32 {
    if status.is_attempt() && !previous.is_attempt() {
        if attempts == u32::MAX {
            0
        } else {
            (attempts + 1) as u32
        }
    } else {
        attempts
    }
}

/// `error` is the error of some failed item of `items`, or, when it is `None`, no failed item
/// carries an error.
pub open spec fn is_failed_item_error(items: Seq<CollectionTaskItem>, error: Option<String>) -> bool {
    match error {
        Some(m) => exists|i: int|
            0 <= i < items.len() && #[trigger] items[i].status == CollectionTaskItemStatus::Failed
                && (items[i].error_message matches Some(e) && e@ == m@),
        None => forall|i: int|
            0 <= i < items.len() && #[trigger] items[i].status == CollectionTaskItemStatus::Failed
                ==> items[i].error_message is None,
    }
}

/// Whether `error` is the error of some failed item of `items` (or `None` where no failed
/// item carries one).
pub fn failed_item_error_matches(items: &Vec<CollectionTaskItem>, error: &Option<String>) -> (r: bool)
    ensures
        r == is_failed_item_error(items@, *error),
{
    let mut k: usize = 0;
    while k < items.len()
        invariant
            k <= items.len(),
            match *error {
                Some(m) => forall|i: int|
                    0 <= i < k ==> !(#[trigger] items@[i].status == CollectionTaskItemStatus::Failed
                        && (items@[i].error_message matches Some(e) && e@ == m@)),
                None => forall|i: int|
                    0 <= i < k && #[trigger] items@[i].status == CollectionTaskItemStatus::Failed
                        ==> items@[i].error_message is None,
            },
        decreases items.len() - k,
    {
        let item = &items[k];
        if item.status == CollectionTaskItemStatus::Failed {
            match (error, &item.error_message) {
                (Some(m), Some(e)) => {
                    if str_eq(m.as_str(), e.as_str()) {
                        assert(items@[k as int].status == CollectionTaskItemStatus::Failed);
                        return true;
                    }
                },
                (None, Some(_)) => {
                    return false;
                },
                _ => {},
            }
        }
        k = k + 1;
    }
    error.is_none()
}

impl CollectionTask {
    /// The summary of the task (its counts) matches its items.
    pub open spec fn counts_match(self) -> bool {
        CollectionTaskCounts {
            total: self.total_items,
            waiting: self.waiting_items,
            running: self.running_items,
            succeeded: self.succeeded_items,
            failed: self.failed_items,
            cancelled: self.cancelled_items,
        }.counts(self.items@)
    }

    /// The status that the task's item counts give it.
    pub open spec fn inferred(self) -> CollectionTaskStatus {
        inferred_status(
            CollectionTaskCounts {
                total: self.total_items,
                waiting: self.waiting_items,
                running: self.running_items,
                succeeded: self.succeeded_items,
                failed: self.failed_items,
                cancelled: self.cancelled_items,
            },
        )
    }

    fn set_counts(&mut self)
        requires
            old(self).items.len() <= u32::MAX,
        ensures
            final(self).counts_match(),
            final(self).items == old(self).items,
            final(self).task_id == old(self).task_id,
            final(self).task_type == old(self).task_type,
            final(self).target_account_id == old(self).target_account_id,
            final(self).status == old(self).status,
            final(self).error_message == old(self).error_message,
    {
        let c = collection_task_counts(&self.items);
        self.total_items = c.total;
        self.waiting_items = c.waiting;
        self.running_items = c.running;
        self.succeeded_items = c.succeeded;
        self.failed_items = c.failed;
        self.cancelled_items = c.cancelled;
    }

    /// Brings the summary up to date: the counts of the items, the status they give and the
    /// error of the latest failed item (`latest_error`, which the store picks by update time
    /// among the failed items that carry an error, `None` when none does).
    pub fn roll_up(&mut self, latest_error: Option<String>)
        requires
            old(self).items.len() <= u32::MAX,
            is_failed_item_error(old(self).items@, latest_error),
        ensures
            is_failed_item_error(final(self).items@, final(self).error_message),
            final(self).counts_match(),
            final(self).status == final(self).inferred(),
            final(self).error_message == latest_error,
            final(self).items == old(self).items,
            final(self).task_id == old(self).task_id,
            final(self).task_type == old(self).task_type,
            final(self).target_account_id == old(self).target_account_id,
    {
        self.set_counts();
        proof {
            lemma_counts_add_up(self.items@);
        }
        let c = CollectionTaskCounts {
            total: self.total_items,
            waiting: self.waiting_items,
            running: self.running_items,
            succeeded: self.succeeded_items,
            failed: self.failed_items,
            cancelled: self.cancelled_items,
        };
        self.status = infer_collection_task_status(c);
        self.error_message = latest_error;
    }

    /// A new task whose items all wait (`create_collection_task`); refused when two items
    /// share an id.
    pub fn create(
        task_id: String,
        task_type: CollectionTaskType,
        target_account_id: Option<String>,
        items: Vec<CollectionTaskItemInput>,
    ) -> (r: Result<Self, ArchiveStoreError>)
        requires
            items.len() <= u32::MAX,
        ensures
            r is Err <==> exists|i: int, j: int|
                0 <= i < j < items.len() && items@[i].item_id@ == items@[j].item_id@,
            r matches Err(e) ==> e is DuplicateCollectionTaskItem,
            r matches Ok(t) ==> {
                &&& t.task_id == task_id
                &&& t.task_type == task_type
                &&& t.target_account_id == target_account_id
                &&& t.error_message is None
                &&& t.counts_match()
                &&& t.status == t.inferred()
                &&& t.items.len() == items.len()
                &&& forall|i: int|
                    0 <= i < items.len() ==> {
                        let item = #[trigger] t.items@[i];
                        &&& item.task_id == task_id
                        &&& item.item_id == items@[i].item_id
                        &&& item.item_type == items@[i].item_type
                        &&& item.payload_json == items@[i].payload_json
                        &&& item.status == CollectionTaskItemStatus::Waiting
                        &&& item.error_message is None
                        &&& item.attempts == 0
                    }
            },
    {
        let mut created: Vec<CollectionTaskItem> = Vec::new();
        let mut k: usize = 0;
        while k < items.len()
            invariant
                k <= items.len(),
                created.len() == k,
                forall|i: int, j: int|
                    0 <= i < j < k ==> items@[i].item_id@ != items@[j].item_id@,
                forall|i: int|
                    0 <= i < k ==> {
                        let item = #[trigger] created@[i];
                        &&& item.task_id == task_id
                        &&& item.item_id == items@[i].item_id
                        &&& item.item_type == items@[i].item_type
                        &&& item.payload_json == items@[i].payload_json
                        &&& item.status == CollectionTaskItemStatus::Waiting
                        &&& item.error_message is None
                        &&& item.attempts == 0
                    },
            decreases items.len() - k,
        {
            let mut m: usize = 0;
            while m < k
                invariant
                    m <= k < items.len(),
                    forall|i: int| 0 <= i < m ==> items@[i].item_id@ != items@[k as int].item_id@,
                decreases k - m,
            {
                if str_eq(items[m].item_id.as_str(), items[k].item_id.as_str()) {
                    return Err(ArchiveStoreError::DuplicateCollectionTaskItem(items[k].item_id.clone()));
                }
                m = m + 1;
            }
            let input = &items[k];
            created.push(
                CollectionTaskItem {
                    task_id: task_id.clone(),
                    item_id: input.item_id.clone(),
                    item_type: input.item_type.clone(),
                    status: CollectionTaskItemStatus::Waiting,
                    payload_json: input.payload_json.clone(),
                    error_message: None,
                    attempts: 0,
                },
            );
            k = k + 1;
        }
        let mut task = CollectionTask {
            task_id,
            task_type,
            target_account_id,
            status: CollectionTaskStatus::Waiting,
            total_items: 0,
            waiting_items: 0,
            running_items: 0,
            succeeded_items: 0,
            failed_items: 0,
            cancelled_items: 0,
            error_message: None,
            items: created,
        };
        task.roll_up(None);
        Ok(task)
    }
}

} // verus!

verus! {

/// First position at or after `i` of an item with the id `id`.
pub open spec fn item_index(items: Seq<CollectionTaskItem>, id: Seq<char>, i: int) -> Option<int>
    decreases items.len() - i,
{
    if i < 0 || i >= items.len() {
        None
    } else if items[i].item_id@ == id {
        Some(i)
    } else {
        item_index(items, id, i + 1)
    }
}

pub proof fn lemma_item_index(items: Seq<CollectionTaskItem>, id: Seq<char>, i: int)
    requires
        0 <= i,
    ensures
        match item_index(items, id, i) {
            Some(j) => i <= j < items.len() && items[j].item_id@ == id,
            None => forall|m: int| i <= m < items.len() ==> items[m].item_id@ != id,
        },
    decreases items.len() - i,
{
    if i < items.len() && items[i].item_id@ != id {
        lemma_item_index(items, id, i + 1);
    }
}

/// `item` after it moves to `status` with `error_message`.
pub open spec fn moved_item(
    item: CollectionTaskItem,
    status: CollectionTaskItemStatus,
    error_message: Option<String>,
) -> CollectionTaskItem {
    CollectionTaskItem {
        status,
        error_message,
        attempts: next_attempts(item.status, item.attempts, status),
        ..item
    }
}

/// `item` after a retry of failed items.
pub open spec fn retried_item(item: CollectionTaskItem) -> CollectionTaskItem {
    if item.status == CollectionTaskItemStatus::Failed {
        CollectionTaskItem { status: CollectionTaskItemStatus::Waiting, error_message: None, ..item }
    } else {
        item
    }
}

/// `item` after its task is cancelled.
pub open spec fn cancelled_item(item: CollectionTaskItem) -> CollectionTaskItem {
    if item.status == CollectionTaskItemStatus::Waiting || item.status
        == CollectionTaskItemStatus::Running {
        CollectionTaskItem {
            status: CollectionTaskItemStatus::Cancelled,
            error_message: None,
            ..item
        }
    } else {
        item
    }
}

impl CollectionTask {
    /// Moves the item `item_id` to `status` with `error_message`, counting an attempt when it
    /// enters one (`update_collection_task_item_status`); the store then rolls the task up.
    pub fn update_item_status(
        &mut self,
        item_id: &str,
        status: CollectionTaskItemStatus,
        error_message: Option<String>,
    ) -> (r: Result<(), ArchiveStoreError>)
        ensures
            r is Err <==> item_index(old(self).items@, item_id@, 0) is None,
            r is Err ==> *final(self) == *old(self) && (r matches Err(
                ArchiveStoreError::CollectionTaskItemNotFound(id),
            ) && id@ == item_id@),
            r is Ok ==> ({
                let i = item_index(old(self).items@, item_id@, 0)->0;
                &&& final(self).items@ == old(self).items@.update(
                    i,
                    moved_item(old(self).items@[i], status, error_message),
                )
                &&& final(self).task_id == old(self).task_id
                &&& final(self).task_type == old(self).task_type
                &&& final(self).target_account_id == old(self).target_account_id
                &&& final(self).status == old(self).status
                &&& final(self).error_message == old(self).error_message
            }),
    {
        proof {
            lemma_item_index(self.items@, item_id@, 0);
        }
        let mut i: usize = 0;
        while i < self.items.len()
            invariant
                i <= self.items.len(),
                *self == *old(self),
                item_index(self.items@, item_id@, 0) == item_index(self.items@, item_id@, i as int),
            decreases self.items.len() - i,
        {
            if str_eq(self.items[i].item_id.as_str(), item_id) {
                let previous = &self.items[i];
                let attempts = if status.is_attempt_status() && !previous.status.is_attempt_status() {
                    if previous.attempts == u32::MAX {
                        0
                    } else {
                        previous.attempts + 1
                    }
                } else {
                    previous.attempts
                };
                let moved = CollectionTaskItem {
                    task_id: previous.task_id.clone(),
                    item_id: previous.item_id.clone(),
                    item_type: previous.item_type.clone(),
                    status,
                    payload_json: previous.payload_json.clone(),
                    error_message,
                    attempts,
                };
                self.items.set(i, moved);
                return Ok(());
            }
            i = i + 1;
        }
        Err(ArchiveStoreError::CollectionTaskItemNotFound(String::from_str(item_id)))
    }

    /// Puts every failed item back to waiting, its error cleared, and rolls the task up
    /// (`retry_failed_collection_task_items`). Succeeded, running, waiting and cancelled items
    /// stay as they are.
    pub fn retry_failed_items(&mut self)
        requires
            old(self).items.len() <= u32::MAX,
        ensures
            final(self).items.len() == old(self).items.len(),
            forall|i: int|
                0 <= i < old(self).items.len() ==> #[trigger] final(self).items@[i] == retried_item(
                    old(self).items@[i],
                ),
            final(self).counts_match(),
            final(self).status == final(self).inferred(),
            final(self).error_message is None,
            final(self).task_id == old(self).task_id,
            final(self).task_type == old(self).task_type,
            final(self).target_account_id == old(self).target_account_id,
    {
        let mut i: usize = 0;
        while i < self.items.len()
            invariant
                i <= self.items.len() == old(self).items.len() <= u32::MAX,
                forall|m: int| 0 <= m < i ==> #[trigger] self.items@[m] == retried_item(old(self).items@[m]),
                forall|m: int| i <= m < self.items.len() ==> #[trigger] self.items@[m] == old(self).items@[m],
                self.task_id == old(self).task_id,
                self.task_type == old(self).task_type,
                self.target_account_id == old(self).target_account_id,
            decreases self.items.len() - i,
        {
            if self.items[i].status == CollectionTaskItemStatus::Failed {
                let previous = &self.items[i];
                let item = CollectionTaskItem {
                    task_id: previous.task_id.clone(),
                    item_id: previous.item_id.clone(),
                    item_type: previous.item_type.clone(),
                    status: CollectionTaskItemStatus::Waiting,
                    payload_json: previous.payload_json.clone(),
                    error_message: None,
                    attempts: previous.attempts,
                };
                self.items.set(i, item);
            }
            i = i + 1;
        }
        self.roll_up(None);
    }

    /// Sets the task's status and error (`set_collection_task_status`); cancelling also cancels
    /// every waiting or running item and clears its error.
    pub fn set_status(&mut self, status: CollectionTaskStatus, error_message: Option<String>)
        requires
            old(self).items.len() <= u32::MAX,
        ensures
            final(self).items.len() == old(self).items.len(),
            forall|i: int|
                0 <= i < old(self).items.len() ==> #[trigger] final(self).items@[i] == (if status
                    == CollectionTaskStatus::Cancelled {
                    cancelled_item(old(self).items@[i])
                } else {
                    old(self).items@[i]
                }),
            final(self).counts_match(),
            final(self).status == status,
            final(self).error_message == error_message,
            final(self).task_id == old(self).task_id,
            final(self).task_type == old(self).task_type,
            final(self).target_account_id == old(self).target_account_id,
    {
        if status == CollectionTaskStatus::Cancelled {
            let mut i: usize = 0;
            while i < self.items.len()
                invariant
                    i <= self.items.len() == old(self).items.len() <= u32::MAX,
                    forall|m: int| 0 <= m < i ==> #[trigger] self.items@[m] == cancelled_item(old(self).items@[m]),
                    forall|m: int| i <= m < self.items.len() ==> #[trigger] self.items@[m] == old(self).items@[m],
                    self.task_id == old(self).task_id,
                    self.task_type == old(self).task_type,
                    self.target_account_id == old(self).target_account_id,
                decreases self.items.len() - i,
            {
                if self.items[i].status == CollectionTaskItemStatus::Waiting || self.items[i].status
                    == CollectionTaskItemStatus::Running {
                    let previous = &self.items[i];
                    let item = CollectionTaskItem {
                        task_id: previous.task_id.clone(),
                        item_id: previous.item_id.clone(),
                        item_type: previous.item_type.clone(),
                        status: CollectionTaskItemStatus::Cancelled,
                        payload_json: previous.payload_json.clone(),
                        error_message: None,
                        attempts: previous.attempts,
                    };
                    self.items.set(i, item);
                }
                i = i + 1;
            }
        }
        self.set_counts();
        self.status = status;
        self.error_message = error_message;
    }
}

} // verus!

verus! {

/// No item has status `s` exactly when the count of `s` is zero.
pub proof fn lemma_count_zero(items: Seq<CollectionTaskItem>, s: CollectionTaskItemStatus)
    ensures
        (count_of(items, s) == 0) <==> (forall|i: int| 0 <= i < items.len() ==> items[i].status != s),
    decreases items.len(),
{
    if items.len() > 0 {
        lemma_count_zero(items.drop_last(), s);
        if count_of(items, s) == 0 {
            assert forall|i: int| 0 <= i < items.len() implies items[i].status != s by {
                if i < items.len() - 1 {
                    assert(items.drop_last()[i] == items[i]);
                }
            }
        } else {
            if items.last().status != s {
                let i = choose|i: int|
                    0 <= i < items.drop_last().len() && items.drop_last()[i].status == s;
                assert(items[i] == items.drop_last()[i]);
            }
        }
    }
}

/// Counts that add up roll up to succeeded when nothing waits, runs or failed and something
/// succeeded, and to running only while something waits or runs; a failure makes the task
/// failed, a task whose items were all cancelled is cancelled, and an empty one waits.
pub proof fn law_counts_roll_up_to_succeeded_or_running(c: CollectionTaskCounts)
    requires
        c.total == c.waiting + c.running + c.succeeded + c.failed + c.cancelled,
    ensures
        c.waiting == 0 && c.running == 0 && c.failed == 0 && c.succeeded > 0 ==> inferred_status(c)
            == CollectionTaskStatus::Succeeded,
        inferred_status(c) == CollectionTaskStatus::Running ==> c.waiting > 0 || c.running > 0,
        c.failed > 0 ==> inferred_status(c) == CollectionTaskStatus::Failed,
        c.total > 0 && c.cancelled == c.total ==> inferred_status(c)
            == CollectionTaskStatus::Cancelled,
        c.total == 0 ==> inferred_status(c) == CollectionTaskStatus::Waiting,
{
}

/// A task whose items are all succeeded or cancelled, at least one succeeded, rolls up to
/// succeeded; a task rolls up to running only while one of its items waits or runs.
pub proof fn law_finished_task_is_succeeded(t: CollectionTask)
    requires
        t.counts_match(),
    ensures
        (forall|i: int|
            0 <= i < t.items.len() ==> (#[trigger] t.items@[i].status
                == CollectionTaskItemStatus::Succeeded || t.items@[i].status
                == CollectionTaskItemStatus::Cancelled)) && (exists|i: int|
            0 <= i < t.items.len() && #[trigger] t.items@[i].status
                == CollectionTaskItemStatus::Succeeded) ==> t.inferred()
            == CollectionTaskStatus::Succeeded,
        t.inferred() == CollectionTaskStatus::Running ==> exists|i: int|
            0 <= i < t.items.len() && (#[trigger] t.items@[i].status
                == CollectionTaskItemStatus::Waiting || t.items@[i].status
                == CollectionTaskItemStatus::Running),
{
    let items = t.items@;
    lemma_counts_add_up(items);
    lemma_count_zero(items, CollectionTaskItemStatus::Waiting);
    lemma_count_zero(items, CollectionTaskItemStatus::Running);
    lemma_count_zero(items, CollectionTaskItemStatus::Failed);
    lemma_count_zero(items, CollectionTaskItemStatus::Succeeded);
    let c = CollectionTaskCounts {
        total: t.total_items,
        waiting: t.waiting_items,
        running: t.running_items,
        succeeded: t.succeeded_items,
        failed: t.failed_items,
        cancelled: t.cancelled_items,
    };
    law_counts_roll_up_to_succeeded_or_running(c);
    if t.inferred() == CollectionTaskStatus::Running {
        if !(exists|i: int|
            0 <= i < t.items.len() && (#[trigger] t.items@[i].status
                == CollectionTaskItemStatus::Waiting || t.items@[i].status
                == CollectionTaskItemStatus::Running)) {
            assert forall|i: int| 0 <= i < items.len() implies items[i].status
                != CollectionTaskItemStatus::Waiting by {
                assert(items[i] == t.items@[i]);
            }
            assert forall|i: int| 0 <= i < items.len() implies items[i].status
                != CollectionTaskItemStatus::Running by {
                assert(items[i] == t.items@[i]);
            }
        }
    }
}

/// A task whose items roll up to succeeded has every item succeeded or cancelled, and at least
/// one succeeded.
pub proof fn law_succeeded_task_is_done(t: CollectionTask)
    requires
        t.counts_match(),
        t.inferred() == CollectionTaskStatus::Succeeded,
    ensures
        forall|i: int|
            0 <= i < t.items.len() ==> (#[trigger] t.items@[i].status
                == CollectionTaskItemStatus::Succeeded || t.items@[i].status
                == CollectionTaskItemStatus::Cancelled),
        exists|i: int|
            0 <= i < t.items.len() && #[trigger] t.items@[i].status
                == CollectionTaskItemStatus::Succeeded,
{
    let items = t.items@;
    lemma_counts_add_up(items);
    lemma_count_zero(items, CollectionTaskItemStatus::Waiting);
    lemma_count_zero(items, CollectionTaskItemStatus::Running);
    lemma_count_zero(items, CollectionTaskItemStatus::Failed);
    lemma_count_zero(items, CollectionTaskItemStatus::Succeeded);
    assert forall|i: int| 0 <= i < t.items.len() implies (#[trigger] t.items@[i].status
        == CollectionTaskItemStatus::Succeeded || t.items@[i].status
        == CollectionTaskItemStatus::Cancelled) by {
        assert(items[i].status != CollectionTaskItemStatus::Waiting);
        assert(items[i].status != CollectionTaskItemStatus::Running);
        assert(items[i].status != CollectionTaskItemStatus::Failed);
    }
}

/// A task with a single item rolls up to that item's status.
pub proof fn law_single_item_task_status(t: CollectionTask)
    requires
        t.counts_match(),
        t.items.len() == 1,
    ensures
        t.inferred() == (match t.items@[0].status {
            CollectionTaskItemStatus::Waiting => CollectionTaskStatus::Waiting,
            CollectionTaskItemStatus::Running => CollectionTaskStatus::Running,
            CollectionTaskItemStatus::Succeeded => CollectionTaskStatus::Succeeded,
            CollectionTaskItemStatus::Failed => CollectionTaskStatus::Failed,
            CollectionTaskItemStatus::Cancelled => CollectionTaskStatus::Cancelled,
        }),
{
    let items = t.items@;
    assert(items.drop_last().len() == 0);
    assert(items.last() == items[0]);
    assert(count_of(items.drop_last(), CollectionTaskItemStatus::Waiting) == 0);
    assert(count_of(items.drop_last(), CollectionTaskItemStatus::Running) == 0);
    assert(count_of(items.drop_last(), CollectionTaskItemStatus::Succeeded) == 0);
    assert(count_of(items.drop_last(), CollectionTaskItemStatus::Failed) == 0);
    assert(count_of(items.drop_last(), CollectionTaskItemStatus::Cancelled) == 0);
}

/// After a retry no item has failed, and exactly the items that had succeeded still have.
pub proof fn law_retry_keeps_successes(before: CollectionTask, after: CollectionTask)
    requires
        after.items.len() == before.items.len(),
        forall|i: int|
            0 <= i < before.items.len() ==> #[trigger] after.items@[i] == retried_item(
                before.items@[i],
            ),
    ensures
        forall|i: int| 0 <= i < after.items.len() ==> #[trigger] after.items@[i].status
            != CollectionTaskItemStatus::Failed,
        forall|i: int|
            0 <= i < after.items.len() ==> (#[trigger] after.items@[i].status
                == CollectionTaskItemStatus::Succeeded <==> before.items@[i].status
                == CollectionTaskItemStatus::Succeeded),
        forall|i: int|
            0 <= i < after.items.len() && before.items@[i].status
                == CollectionTaskItemStatus::Succeeded ==> #[trigger] after.items@[i]
                == before.items@[i],
{
}

/// After a cancellation no item waits or runs, and succeeded and failed items are kept.
pub proof fn law_cancel_stops_every_item(before: CollectionTask, after: CollectionTask)
    requires
        after.items.len() == before.items.len(),
        forall|i: int|
            0 <= i < before.items.len() ==> #[trigger] after.items@[i] == cancelled_item(
                before.items@[i],
            ),
    ensures
        forall|i: int|
            0 <= i < after.items.len() ==> (#[trigger] after.items@[i].status
                != CollectionTaskItemStatus::Waiting && after.items@[i].status
                != CollectionTaskItemStatus::Running),
        forall|i: int|
            0 <= i < after.items.len() && (before.items@[i].status
                == CollectionTaskItemStatus::Succeeded || before.items@[i].status
                == CollectionTaskItemStatus::Failed) ==> #[trigger] after.items@[i]
                == before.items@[i],
{
}

/// An attempt is counted once: moving an item into running, succeeded or failed from waiting or
/// cancelled adds one attempt (below `u32::MAX`); any other move keeps the count.
pub proof fn law_attempts_count_entries(
    item: CollectionTaskItem,
    status: CollectionTaskItemStatus,
    error_message: Option<String>,
)
    requires
        item.attempts < u32::MAX,
    ensures
        moved_item(item, status, error_message).attempts == (if status.is_attempt()
            && !item.status.is_attempt() {
            item.attempts + 1
        } else {
            item.attempts as int
        }),
        moved_item(item, status, error_message).item_id == item.item_id,
        moved_item(item, status, error_message).payload_json == item.payload_json,
{
}

} // verus!

verus! {

/// A file reference that the store accepts: relative (no leading `/`, no leading `.` or any
/// `..` component) and naming at least one component.
pub open spec fn is_safe_relative(path: Seq<char>) -> bool {
    let pieces = crate::text::split_on(path, '/');
    &&& !(path.len() > 0 && path[0] == '/')
    &&& pieces[0] != seq!['.']
    &&& forall|i: int| 0 <= i < pieces.len() ==> #[trigger] pieces[i] != seq!['.', '.']
    &&& exists|i: int| 0 <= i < pieces.len() && crate::article_export::is_normal_piece(#[trigger] pieces[i])
}

/// Whether `path` is a relative file reference that names something.
pub fn is_safe_relative_path(path: &str) -> (r: bool)
    ensures
        r == is_safe_relative(path@),
{
    let p = chars_of(path);
    let pieces = crate::text::split_chars(&p, '/');
    let ghost vs = crate::text::views(pieces@);
    assert(vs.len() == pieces@.len());
    assert(vs.len() > 0);
    assert(vs[0] == pieces@[0]@);
    if p.len() > 0 && p[0] == '/' {
        return false;
    }
    let dot = vec!['.'];
    let dot_dot = vec!['.', '.'];
    assert(dot@ =~= seq!['.']);
    assert(dot_dot@ =~= seq!['.', '.']);
    if crate::text::chars_eq(&pieces[0], &dot) {
        return false;
    }
    let mut has_component = false;
    let mut k: usize = 0;
    while k < pieces.len()
        invariant
            k <= pieces.len(),
            vs == crate::text::views(pieces@),
            vs == crate::text::split_on(path@, '/'),
            vs.len() > 0,
            !(path@.len() > 0 && path@[0] == '/'),
            vs[0] != seq!['.'],
            dot@ == seq!['.'],
            dot_dot@ == seq!['.', '.'],
            forall|i: int| 0 <= i < k ==> #[trigger] vs[i] != seq!['.', '.'],
            has_component == exists|i: int|
                0 <= i < k && crate::article_export::is_normal_piece(#[trigger] vs[i]),
        decreases pieces.len() - k,
    {
        assert(vs[k as int] == pieces@[k as int]@);
        if crate::text::chars_eq(&pieces[k], &dot_dot) {
            return false;
        }
        let piece = &pieces[k];
        let normal = piece.len() > 0 && !crate::text::chars_eq(piece, &dot);
        assert(normal == crate::article_export::is_normal_piece(vs[k as int]));
        if normal {
            has_component = true;
        }
        k = k + 1;
    }
    has_component
}

/// The text stored for a relative file reference, or the error for one that is not.
pub fn relative_path_to_text(path: &str) -> (r: Result<String, ArchiveStoreError>)
    ensures
        is_safe_relative(path@) ==> (r matches Ok(s) && s@ == path@),
        !is_safe_relative(path@) ==> (r matches Err(ArchiveStoreError::InvalidRelativePath(p))
            && p@ == path@),
{
    if !is_safe_relative_path(path) {
        return Err(ArchiveStoreError::InvalidRelativePath(String::from_str(path)));
    }
    Ok(String::from_str(path))
}

/// The text stored for an optional relative file reference.
pub fn optional_relative_path_to_text(path: &Option<String>) -> (r: Result<
    Option<String>,
    ArchiveStoreError,
>)
    ensures
        path is None ==> r == Ok::<Option<String>, ArchiveStoreError>(None),
        path matches Some(p) ==> (is_safe_relative(p@) ==> (r matches Ok(Some(s)) && s@ == p@)),
        path matches Some(p) ==> (!is_safe_relative(p@) ==> (r matches Err(
            ArchiveStoreError::InvalidRelativePath(e),
        ) && e@ == p@)),
{
    match path {
        None => Ok(None),
        Some(p) => match relative_path_to_text(p.as_str()) {
            Ok(s) => Ok(Some(s)),
            Err(e) => Err(e),
        },
    }
}

impl TargetAccountExport {
    /// The export of the given target accounts, tagged with the export format.
    pub fn from_accounts(accounts: Vec<TargetAccountInput>) -> (r: Self)
        ensures
            r.format@ == TARGET_ACCOUNT_EXPORT_FORMAT@,
            r.accounts@ == accounts@,
    {
        TargetAccountExport { format: String::from_str(TARGET_ACCOUNT_EXPORT_FORMAT), accounts }
    }

    /// An export can be imported only in the export format this store writes.
    pub fn check_importable(&self) -> (r: Result<(), ArchiveStoreError>)
        ensures
            r is Ok <==> self.format@ == TARGET_ACCOUNT_EXPORT_FORMAT@,
            r is Err ==> (r matches Err(
                ArchiveStoreError::UnsupportedTargetAccountExportFormat(f),
            ) && f@ == self.format@),
    {
        if str_eq(self.format.as_str(), TARGET_ACCOUNT_EXPORT_FORMAT) {
            Ok(())
        } else {
            Err(ArchiveStoreError::UnsupportedTargetAccountExportFormat(self.format.clone()))
        }
    }
}

#[derive(Clone, Debug, Eq, PartialEq)]
pub struct ArticleListSyncRecord {
    pub target_account_id: String,
    pub requested_limit: u32,
    pub fetched_count: u32,
    pub total_count: Option<u32>,
    pub status: ArticleListSyncStatus,
    pub error_message: Option<String>,
}

/// The id of a collection task: `task-<milliseconds>-<counter>`.
pub open spec fn collection_task_id_text(epoch_millis: nat, counter: nat) -> Seq<char> {
    "task-"@ + crate::numbers::decimal(epoch_millis) + seq!['-'] + crate::numbers::decimal(counter)
}

/// The id of a collection task created at `epoch_millis` as the `counter`-th of the process.
pub fn collection_task_id(epoch_millis: u128, counter: u64) -> (r: String)
    ensures
        r@ == collection_task_id_text(epoch_millis as nat, counter as nat),
{
    let mut id = chars_of("task-");
    crate::text::push_all(&mut id, &crate::numbers::u128_to_decimal(epoch_millis));
    id.push('-');
    crate::text::push_all(&mut id, &crate::numbers::u128_to_decimal(counter as u128));
    string_of(id.as_slice())
}

/// The albums of a target account's articles: each album entry with a non-blank id, the
/// first entry of each id, in order of appearance (articles in order, entries in order).
pub open spec fn albums_fold(
    entries: Seq<(i64, Seq<char>, i64, Seq<char>)>,
) -> Seq<(i64, Seq<char>, i64, Seq<char>)>
    decreases entries.len(),
{
    if entries.len() == 0 {
        Seq::empty()
    } else {
        let kept = albums_fold(entries.drop_last());
        let e = entries.last();
        if crate::text::trim(e.1).len() > 0 && !(exists|i: int|
            0 <= i < kept.len() && #[trigger] kept[i].1 == e.1) {
            kept.push(e)
        } else {
            kept
        }
    }
}

/// The album entries of a list of articles, one after the other.
pub open spec fn all_album_entries(articles: Seq<TargetArticleInput>) -> Seq<
    (i64, Seq<char>, i64, Seq<char>),
>
    decreases articles.len(),
{
    if articles.len() == 0 {
        Seq::empty()
    } else {
        all_album_entries(articles.drop_last()) + crate::article_list_sync::album_infos_view(
            articles.last().album_infos@,
        )
    }
}

fn copy_album_info(a: &TargetArticleAlbumInfo) -> (r: TargetArticleAlbumInfo)
    ensures
        crate::article_list_sync::album_info_view(r) == crate::article_list_sync::album_info_view(*a),
{
    TargetArticleAlbumInfo {
        album_id: a.album_id,
        id: a.id.clone(),
        tag_source: a.tag_source,
        title: a.title.clone(),
    }
}

/// The albums of the given articles of a target account.
pub fn list_target_account_albums(articles: &Vec<TargetArticleInput>) -> (r: Vec<TargetArticleAlbumInfo>)
    ensures
        crate::article_list_sync::album_infos_view(r@) == albums_fold(all_album_entries(articles@)),
{
    let mut albums: Vec<TargetArticleAlbumInfo> = Vec::new();
    let mut k: usize = 0;
    while k < articles.len()
        invariant
            k <= articles@.len(),
            crate::article_list_sync::album_infos_view(albums@) == albums_fold(
                all_album_entries(articles@.take(k as int)),
            ),
        decreases articles.len() - k,
    {
        assert(articles@.take(k as int + 1).drop_last() =~= articles@.take(k as int));
        let infos = &articles[k].album_infos;
        let ghost before = all_album_entries(articles@.take(k as int));
        let ghost entries = crate::article_list_sync::album_infos_view(infos@);
        let mut j: usize = 0;
        while j < infos.len()
            invariant
                j <= infos@.len(),
                entries == crate::article_list_sync::album_infos_view(infos@),
                crate::article_list_sync::album_infos_view(albums@) == albums_fold(
                    before + entries.take(j as int),
                ),
            decreases infos.len() - j,
        {
            let ghost kept = crate::article_list_sync::album_infos_view(albums@);
            assert((before + entries.take(j as int + 1)).drop_last() =~= before + entries.take(
                j as int,
            ));
            assert((before + entries.take(j as int + 1)).last() == entries[j as int]);
            let album = &infos[j];
            let blank = crate::text::trim_chars(&chars_of(album.id.as_str())).len() == 0;
            let mut seen = false;
            let mut m: usize = 0;
            while m < albums.len()
                invariant
                    m <= albums@.len(),
                    kept == crate::article_list_sync::album_infos_view(albums@),
                    seen == exists|i: int| 0 <= i < m && #[trigger] kept[i].1 == album.id@,
                decreases albums.len() - m,
            {
                if str_eq(albums[m].id.as_str(), album.id.as_str()) {
                    seen = true;
                }
                assert(kept[m as int].1 == albums@[m as int].id@);
                m = m + 1;
            }
            if !blank && !seen {
                let c = copy_album_info(album);
                albums.push(c);
                assert(crate::article_list_sync::album_infos_view(albums@) =~= kept.push(
                    entries[j as int],
                ));
            }
            j = j + 1;
        }
        assert(entries.take(infos@.len() as int) =~= entries);
        k = k + 1;
    }
    assert(articles@.take(articles@.len() as int) =~= articles@);
    albums
}

/// Whether an article belongs to the album `album_id`: one of its entries has that id, or an
/// empty id and that album number.
pub open spec fn in_album(article: TargetArticleInput, album_id: Seq<char>) -> bool {
    exists|i: int|
        0 <= i < article.album_infos@.len() && (#[trigger] article.album_infos@[i].id@ == album_id
            || (article.album_infos@[i].id@.len() == 0 && crate::numbers::signed_decimal(
            article.album_infos@[i].album_id as int,
        ) == album_id))
}

/// The articles of the album, in order.
pub open spec fn articles_in_album(articles: Seq<TargetArticleInput>, album_id: Seq<char>) -> Seq<
    TargetArticleInput,
>
    decreases articles.len(),
{
    if articles.len() == 0 {
        Seq::empty()
    } else {
        let rest = articles_in_album(articles.drop_last(), album_id);
        if in_album(articles.last(), album_id) {
            rest.push(articles.last())
        } else {
            rest
        }
    }
}

/// The album articles are exactly the listed articles that are in the album.
proof fn lemma_articles_in_album_members(articles: Seq<TargetArticleInput>, album_id: Seq<char>)
    ensures
        forall|k: int|
            0 <= k < articles.len() && in_album(#[trigger] articles[k], album_id)
                ==> articles_in_album(articles, album_id).contains(articles[k]),
        forall|j: int|
            0 <= j < articles_in_album(articles, album_id).len() ==> in_album(
                #[trigger] articles_in_album(articles, album_id)[j],
                album_id,
            ) && articles.contains(articles_in_album(articles, album_id)[j]),
    decreases articles.len(),
{
    if articles.len() > 0 {
        let init = articles.drop_last();
        lemma_articles_in_album_members(init, album_id);
        let rest = articles_in_album(init, album_id);
        let out = articles_in_album(articles, album_id);
        assert forall|k: int|
            0 <= k < articles.len() && in_album(#[trigger] articles[k], album_id) implies out.contains(
            articles[k],
        ) by {
            if k < articles.len() - 1 {
                assert(init[k] == articles[k]);
                assert(rest.contains(articles[k]));
                let j = choose|j: int| 0 <= j < rest.len() && rest[j] == articles[k];
                if in_album(articles.last(), album_id) {
                    assert(out[j] == rest[j]);
                }
            } else {
                assert(out[out.len() - 1] == articles.last());
            }
        }
        assert forall|j: int| 0 <= j < out.len() implies in_album(#[trigger] out[j], album_id)
            && articles.contains(out[j]) by {
            if j < rest.len() {
                assert(out[j] == rest[j]);
                assert(init.contains(rest[j]));
                let k = choose|k: int| 0 <= k < init.len() && init[k] == rest[j];
                assert(articles[k] == init[k]);
            } else {
                assert(out[j] == articles.last());
                assert(articles[articles.len() - 1] == articles.last());
            }
        }
    }
}

/// Album membership does not depend on where an entry stands: an article with any album entry
/// naming the album (by its id, or by its number where the id is empty) is listed in that
/// album, and every article listed in an album is one of the articles and has such an entry.
pub proof fn law_album_membership_by_any_entry(articles: Seq<TargetArticleInput>, album_id: Seq<char>)
    ensures
        forall|k: int, i: int|
            0 <= k < articles.len() && 0 <= i < articles[k].album_infos@.len() && (
            #[trigger] articles[k].album_infos@[i].id@ == album_id || (
            articles[k].album_infos@[i].id@.len() == 0 && crate::numbers::signed_decimal(
                articles[k].album_infos@[i].album_id as int,
            ) == album_id)) ==> articles_in_album(articles, album_id).contains(articles[k]),
        forall|j: int|
            0 <= j < articles_in_album(articles, album_id).len() ==> articles.contains(
                #[trigger] articles_in_album(articles, album_id)[j],
            ) && exists|i: int|
                0 <= i < articles_in_album(articles, album_id)[j].album_infos@.len() && (
                articles_in_album(articles, album_id)[j].album_infos@[i].id@ == album_id || (
                articles_in_album(articles, album_id)[j].album_infos@[i].id@.len() == 0
                    && crate::numbers::signed_decimal(
                    articles_in_album(articles, album_id)[j].album_infos@[i].album_id as int,
                ) == album_id)),
{
    lemma_articles_in_album_members(articles, album_id);
    assert forall|k: int, i: int|
        0 <= k < articles.len() && 0 <= i < articles[k].album_infos@.len() && (
        #[trigger] articles[k].album_infos@[i].id@ == album_id || (
        articles[k].album_infos@[i].id@.len() == 0 && crate::numbers::signed_decimal(
            articles[k].album_infos@[i].album_id as int,
        ) == album_id)) implies articles_in_album(articles, album_id).contains(articles[k]) by {
        assert(in_album(articles[k], album_id));
    }
}

fn article_in_album(article: &TargetArticleInput, album_id: &str) -> (r: bool)
    ensures
        r == in_album(*article, album_id@),
{
    let mut k: usize = 0;
    while k < article.album_infos.len()
        invariant
            k <= article.album_infos@.len(),
            forall|i: int|
                0 <= i < k ==> !(#[trigger] article.album_infos@[i].id@ == album_id@ || (
                article.album_infos@[i].id@.len() == 0 && crate::numbers::signed_decimal(
                    article.album_infos@[i].album_id as int,
                ) == album_id@)),
        decreases article.album_infos.len() - k,
    {
        let a = &article.album_infos[k];
        if str_eq(a.id.as_str(), album_id) {
            return true;
        }
        if a.id.as_str().unicode_len() == 0 {
            let n = string_of(crate::numbers::i64_to_decimal(a.album_id).as_slice());
            if str_eq(n.as_str(), album_id) {
                return true;
            }
        }
        k = k + 1;
    }
    false
}

/// The given articles of a target account that belong to the album `album_id`.
pub fn list_target_articles_by_album(articles: Vec<TargetArticleInput>, album_id: &str) -> (r: Vec<
    TargetArticleInput,
>)
    ensures
        r@ == articles_in_album(articles@, album_id@),
{
    let ghost all = articles@;
    let mut kept: Vec<TargetArticleInput> = Vec::new();
    let mut rest = articles;
    let ghost mut taken: Seq<TargetArticleInput> = Seq::empty();
    while rest.len() > 0
        invariant
            all == taken + rest@,
            kept@ == articles_in_album(taken, album_id@),
        decreases rest.len(),
    {
        let a = rest.remove(0);
        let keep = article_in_album(&a, album_id);
        proof {
            let prev = taken;
            taken = taken.push(a);
            assert(taken.drop_last() =~= prev);
            assert(all =~= taken + rest@);
        }
        if keep {
            kept.push(a);
        }
    }
    assert(taken =~= all);
    kept
}

/// The album list of an account names each album once, never under a blank id, and holds
/// only entries that some article carries.
pub proof fn law_albums_are_distinct(entries: Seq<(i64, Seq<char>, i64, Seq<char>)>)
    ensures
        forall|i: int, j: int|
            0 <= i < j < albums_fold(entries).len() ==> #[trigger] albums_fold(entries)[i].1
                != #[trigger] albums_fold(entries)[j].1,
        forall|i: int|
            0 <= i < albums_fold(entries).len() ==> crate::text::trim(
                #[trigger] albums_fold(entries)[i].1,
            ).len() > 0,
        forall|i: int|
            0 <= i < albums_fold(entries).len() ==> entries.contains(
                #[trigger] albums_fold(entries)[i],
            ),
    decreases entries.len(),
{
    if entries.len() > 0 {
        let rest = entries.drop_last();
        law_albums_are_distinct(rest);
        let kept = albums_fold(rest);
        assert forall|i: int| 0 <= i < kept.len() implies entries.contains(#[trigger] kept[i]) by {
            assert(rest.contains(kept[i]));
            let k = choose|k: int| 0 <= k < rest.len() && rest[k] == kept[i];
            assert(entries[k] == kept[i]);
        }
        assert(entries[entries.len() - 1] == entries.last());
    }
}

} // verus!
