//! Plain records that travel between the broker and its collaborators.

use vstd::prelude::*;

verus! {

/// One row of the object index: where the file of an object variant lives.
#[derive(Debug)]
pub struct CachedFile {
    pub id: i32,
    pub object_id: i32,
    pub object_type: String,
    pub message_id: i64,
    pub chat_id: i64,
}

/// Mathematical value of a [`CachedFile`].
pub struct CachedFileView {
    pub id: int,
    pub object_id: int,
    pub object_type: Seq<char>,
    pub message_id: int,
    pub chat_id: int,
}

impl View for CachedFile {
    type V = CachedFileView;

    open spec fn view(&self) -> CachedFileView {
        CachedFileView {
            id: self.id as int,
            object_id: self.object_id as int,
            object_type: self.object_type@,
            message_id: self.message_id as int,
            chat_id: self.chat_id as int,
        }
    }
}

impl CachedFile {
    /// An independent copy of the row.
    pub fn duplicate(&self) -> (copy: CachedFile)
        ensures
            copy@ == self@,
    {
        CachedFile {
            id: self.id,
            object_id: self.object_id,
            object_type: self.object_type.clone(),
            message_id: self.message_id,
            chat_id: self.chat_id,
        }
    }
}

/// A hot copy handed to a reader: the object it stands for and where the
/// copy lies in the staging conversation.
#[derive(Debug)]
pub struct CacheData {
    pub id: Option<i32>,
    pub object_id: i32,
    pub object_type: String,
    pub message_id: i32,
    pub chat_id: i64,
}

/// A link under which a cached file can be fetched directly.
#[derive(Debug)]
pub struct FileLinkResult {
    pub link: String,
    pub filename: String,
    pub filename_ascii: String,
    pub caption: String,
}

/// The two names of a file: one for display, one safe in ASCII.
#[derive(Debug)]
pub struct FilenameData {
    pub filename: String,
    pub filename_ascii: String,
}

/// What a reader gets with the stream of a cached file: its two names and
/// its caption.
#[derive(Debug)]
pub struct DownloadResult {
    pub filename: String,
    pub filename_ascii: String,
    pub caption: String,
}

/// Mathematical value of a [`DownloadResult`].
pub struct DownloadView {
    pub filename: Seq<char>,
    pub filename_ascii: Seq<char>,
    pub caption: Seq<char>,
}

impl View for DownloadResult {
    type V = DownloadView;

    open spec fn view(&self) -> DownloadView {
        DownloadView {
            filename: self.filename@,
            filename_ascii: self.filename_ascii@,
            caption: self.caption@,
        }
    }
}

/// Mathematical value of a [`FileLinkResult`].
pub struct FileLinkView {
    pub link: Seq<char>,
    pub filename: Seq<char>,
    pub filename_ascii: Seq<char>,
    pub caption: Seq<char>,
}

impl View for FileLinkResult {
    type V = FileLinkView;

    open spec fn view(&self) -> FileLinkView {
        FileLinkView {
            link: self.link@,
            filename: self.filename@,
            filename_ascii: self.filename_ascii@,
            caption: self.caption@,
        }
    }
}

/// Mathematical value of a [`FilenameData`].
pub struct FilenameView {
    pub filename: Seq<char>,
    pub filename_ascii: Seq<char>,
}

impl View for FilenameData {
    type V = FilenameView;

    open spec fn view(&self) -> FilenameView {
        FilenameView { filename: self.filename@, filename_ascii: self.filename_ascii@ }
    }
}

/// Where the storage backend put a file.
#[derive(Debug, Clone, Copy, PartialEq, Eq, Structural)]
pub struct UploadData {
    pub chat_id: i64,
    pub message_id: i64,
}

/// What the storage backend answers to an upload.
#[derive(Debug)]
pub struct UploadResult {
    pub backend: String,
    pub data: UploadData,
}

} // verus!
