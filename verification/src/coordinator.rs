//! The coordinator: one request walked through the index and the
//! collaborators, one decision at a time.
//!
//! A [`Session`] never performs anything itself. It names the next thing to
//! do as an [`Action`]; whoever drives it performs the action and hands the
//! answer back as an [`Event`].

use crate::catalog::{book_caption, BookView, BookWithRemote};
use crate::records::{
    CachedFile, CachedFileView, DownloadResult, DownloadView, FileLinkResult, FileLinkView,
    FilenameData, FilenameView, UploadData,
};
use vstd::prelude::*;

verus! {

/// Bytes of a file that are kept in memory before the rest is spilled.
pub const SPOOL_LIMIT: usize = 5242880;

/// Status with which the storage backend hands out a stored file.
pub const STATUS_OK: u16 = 200;

/// What a request is after.
#[derive(Debug, Clone, Copy, PartialEq, Eq, Structural)]
pub enum Goal {
    /// The index row of the object, stored first where the index lacks it.
    Lookup,
    /// A fresh copy in the backend, whatever the index holds.
    Populate,
    /// The stored file with its names and caption, tried a second time
    /// where the first try misses.
    Download,
    /// A link to the stored file in the object store.
    Link,
}

/// What the download service answered.
#[derive(Debug, Clone, Copy, PartialEq, Eq, Structural)]
pub enum Binary {
    /// The file is coming.
    Stream,
    /// The service has no such file.
    NoContent,
    /// The call failed.
    Failed,
}

/// What the storage backend answered when asked for a stored file.
#[derive(Debug, Clone, Copy, PartialEq, Eq, Structural)]
pub enum StoredFile {
    /// It answered with this status.
    Answered { status: u16 },
    /// The call failed.
    Failed,
}

/// The answer to the action that a session asked for last.
#[derive(Debug)]
pub enum Event {
    /// The index was searched.
    Found(Option<CachedFile>),
    /// The catalog was asked for the book; `None` where that failed.
    Book(Option<BookWithRemote>),
    /// The download service was asked for the file.
    Binary(Binary),
    /// The file was handed to the storage backend; `None` where that failed.
    Stored(Option<UploadData>),
    /// A row was written to the index; `None` where that failed.
    Inserted(Option<CachedFile>),
    /// The stored file, its names and the book were asked for side by side.
    Joined { file: StoredFile, names: Option<FilenameData>, book: Option<BookWithRemote> },
    /// The row was taken out of the index, or was not there.
    Deleted,
    /// The stream was spooled; `false` where it broke off.
    Spooled(bool),
    /// The object store said whether the container exists; `None` where
    /// the call failed.
    Container(Option<bool>),
    /// The object store was asked to make the container.
    ContainerMade,
    /// The spooled file was put into the object store; `false` where that
    /// failed.
    Put(bool),
    /// The object store signed a link; `None` where that failed.
    Presigned(Option<String>),
}

/// Mathematical value of an [`Event`].
pub enum EventView {
    Found(Option<CachedFileView>),
    Book(Option<BookView>),
    Binary(Binary),
    Stored(Option<UploadData>),
    Inserted(Option<CachedFileView>),
    Joined { file: StoredFile, names: Option<FilenameView>, book: Option<BookView> },
    Deleted,
    Spooled(bool),
    Container(Option<bool>),
    ContainerMade,
    Put(bool),
    Presigned(Option<Seq<char>>),
}

impl View for Event {
    type V = EventView;

    open spec fn view(&self) -> EventView {
        match *self {
            Event::Found(row) => EventView::Found(
                match row {
                    Some(r) => Some(r@),
                    None => None,
                },
            ),
            Event::Book(book) => EventView::Book(
                match book {
                    Some(b) => Some(b@),
                    None => None,
                },
            ),
            Event::Binary(binary) => EventView::Binary(binary),
            Event::Stored(place) => EventView::Stored(place),
            Event::Inserted(row) => EventView::Inserted(
                match row {
                    Some(r) => Some(r@),
                    None => None,
                },
            ),
            Event::Joined { file, names, book } => EventView::Joined {
                file,
                names: match names {
                    Some(n) => Some(n@),
                    None => None,
                },
                book: match book {
                    Some(b) => Some(b@),
                    None => None,
                },
            },
            Event::Deleted => EventView::Deleted,
            Event::Spooled(whole) => EventView::Spooled(whole),
            Event::Container(exists) => EventView::Container(exists),
            Event::ContainerMade => EventView::ContainerMade,
            Event::Put(done) => EventView::Put(done),
            Event::Presigned(link) => EventView::Presigned(
                match link {
                    Some(l) => Some(l@),
                    None => None,
                },
            ),
        }
    }
}

/// How a request ended.
#[derive(Debug)]
pub enum Outcome {
    /// Nothing can be had for the object.
    Absent,
    /// The object store failed.
    Failed,
    /// The index row of the object.
    Entry(CachedFile),
    /// The names and the caption that go with the stream of the stored file.
    Download(DownloadResult),
    /// A link to the file in the object store.
    Link(FileLinkResult),
}

/// Mathematical value of an [`Outcome`].
pub enum OutcomeView {
    Absent,
    Failed,
    Entry(CachedFileView),
    Download(DownloadView),
    Link(FileLinkView),
}

impl View for Outcome {
    type V = OutcomeView;

    open spec fn view(&self) -> OutcomeView {
        match *self {
            Outcome::Absent => OutcomeView::Absent,
            Outcome::Failed => OutcomeView::Failed,
            Outcome::Entry(row) => OutcomeView::Entry(row@),
            Outcome::Download(download) => OutcomeView::Download(download@),
            Outcome::Link(link) => OutcomeView::Link(link@),
        }
    }
}

/// The next thing to do for a request.
#[derive(Debug)]
pub enum Action {
    /// Search the index for the object.
    Find { object_id: i32, object_type: String },
    /// Ask the catalog for the book.
    GetBook { book_id: i32 },
    /// Ask the download service for the file.
    FetchBinary { source_id: u32, remote_id: u32, object_type: String },
    /// Hand the stream that the download service sent to the storage
    /// backend, under this caption.
    Store { caption: String },
    /// Write a row to the index.
    Insert { object_id: i32, object_type: String, message_id: i64, chat_id: i64 },
    /// Ask, side by side, the storage backend for the stored file, the
    /// download service for its names and the catalog for the book.
    Join { message_id: i64, chat_id: i64, object_id: i32, object_type: String },
    /// Take the row of the object out of the index.
    Delete { object_id: i32, object_type: String },
    /// Spool the stream of the stored file, keeping at most `limit` bytes
    /// of it in memory.
    Spool { limit: usize },
    /// Ask the object store whether the container exists.
    CheckContainer,
    /// Ask the object store to make the container.
    MakeContainer,
    /// Put the spooled file into the object store.
    Put { key: String },
    /// Have the object store sign a link to the file.
    Presign { key: String },
    /// Nothing is left to do: the request ended like this.
    Finish(Outcome),
}

/// Mathematical value of an [`Action`].
pub enum ActionView {
    Find { object_id: int, object_type: Seq<char> },
    GetBook { book_id: int },
    FetchBinary { source_id: int, remote_id: int, object_type: Seq<char> },
    Store { caption: Seq<char> },
    Insert { object_id: int, object_type: Seq<char>, message_id: int, chat_id: int },
    Join { message_id: int, chat_id: int, object_id: int, object_type: Seq<char> },
    Delete { object_id: int, object_type: Seq<char> },
    Spool { limit: int },
    CheckContainer,
    MakeContainer,
    Put { key: Seq<char> },
    Presign { key: Seq<char> },
    Finish(OutcomeView),
}

impl View for Action {
    type V = ActionView;

    open spec fn view(&self) -> ActionView {
        match *self {
            Action::Find { object_id, object_type } => ActionView::Find {
                object_id: object_id as int,
                object_type: object_type@,
            },
            Action::GetBook { book_id } => ActionView::GetBook { book_id: book_id as int },
            Action::FetchBinary { source_id, remote_id, object_type } => ActionView::FetchBinary {
                source_id: source_id as int,
                remote_id: remote_id as int,
                object_type: object_type@,
            },
            Action::Store { caption } => ActionView::Store { caption: caption@ },
            Action::Insert { object_id, object_type, message_id, chat_id } => ActionView::Insert {
                object_id: object_id as int,
                object_type: object_type@,
                message_id: message_id as int,
                chat_id: chat_id as int,
            },
            Action::Join { message_id, chat_id, object_id, object_type } => ActionView::Join {
                message_id: message_id as int,
                chat_id: chat_id as int,
                object_id: object_id as int,
                object_type: object_type@,
            },
            Action::Delete { object_id, object_type } => ActionView::Delete {
                object_id: object_id as int,
                object_type: object_type@,
            },
            Action::Spool { limit } => ActionView::Spool { limit: limit as int },
            Action::CheckContainer => ActionView::CheckContainer,
            Action::MakeContainer => ActionView::MakeContainer,
            Action::Put { key } => ActionView::Put { key: key@ },
            Action::Presign { key } => ActionView::Presign { key: key@ },
            Action::Finish(outcome) => ActionView::Finish(outcome@),
        }
    }
}

/// The answer that a session is waiting for.
#[derive(Debug)]
pub enum Phase {
    /// The index is being searched.
    Find,
    /// The catalog is being asked for the book.
    Book,
    /// The download service is being asked for the file, which will be
    /// stored under this caption.
    Binary { caption: String },
    /// The file is being handed to the storage backend.
    Store,
    /// The row is being written to the index.
    Insert,
    /// The stored file, its names and the book are being asked for.
    Join,
    /// The row is being taken out of the index.
    Delete,
    /// The stream is being spooled.
    Spool { download: DownloadResult },
    /// The object store is being asked whether the container exists.
    Container { download: DownloadResult },
    /// The object store is making the container.
    MakeContainer { download: DownloadResult },
    /// The spooled file is being put into the object store.
    Put { download: DownloadResult },
    /// The object store is signing the link.
    Presign { download: DownloadResult },
    /// The request has ended.
    Done,
}

/// Mathematical value of a [`Phase`].
pub enum PhaseView {
    Find,
    Book,
    Binary { caption: Seq<char> },
    Store,
    Insert,
    Join,
    Delete,
    Spool { download: DownloadView },
    Container { download: DownloadView },
    MakeContainer { download: DownloadView },
    Put { download: DownloadView },
    Presign { download: DownloadView },
    Done,
}

impl View for Phase {
    type V = PhaseView;

    open spec fn view(&self) -> PhaseView {
        match *self {
            Phase::Find => PhaseView::Find,
            Phase::Book => PhaseView::Book,
            Phase::Binary { caption } => PhaseView::Binary { caption: caption@ },
            Phase::Store => PhaseView::Store,
            Phase::Insert => PhaseView::Insert,
            Phase::Join => PhaseView::Join,
            Phase::Delete => PhaseView::Delete,
            Phase::Spool { download } => PhaseView::Spool { download: download@ },
            Phase::Container { download } => PhaseView::Container { download: download@ },
            Phase::MakeContainer { download } => PhaseView::MakeContainer { download: download@ },
            Phase::Put { download } => PhaseView::Put { download: download@ },
            Phase::Presign { download } => PhaseView::Presign { download: download@ },
            Phase::Done => PhaseView::Done,
        }
    }
}

/// One request on its way.
#[derive(Debug)]
pub struct Session {
    pub goal: Goal,
    pub object_id: i32,
    pub object_type: String,
    pub phase: Phase,
    pub retried: bool,
}

/// Mathematical value of a [`Session`].
pub struct SessionView {
    pub goal: Goal,
    pub object_id: int,
    pub object_type: Seq<char>,
    pub phase: PhaseView,
    pub retried: bool,
}

impl View for Session {
    type V = SessionView;

    open spec fn view(&self) -> SessionView {
        SessionView {
            goal: self.goal,
            object_id: self.object_id as int,
            object_type: self.object_type@,
            phase: self.phase@,
            retried: self.retried,
        }
    }
}

impl SessionView {
    /// The session in another phase.
    pub open spec fn at(self, phase: PhaseView) -> SessionView {
        SessionView { phase, ..self }
    }

    /// A session for `goal` on an object, and its first action: a new copy
    /// starts at the catalog, everything else at the index.
    pub open spec fn start(goal: Goal, object_id: int, object_type: Seq<char>) -> (
        SessionView,
        ActionView,
    ) {
        let session = SessionView {
            goal,
            object_id,
            object_type,
            phase: PhaseView::Find,
            retried: false,
        };
        if goal == Goal::Populate {
            (session.at(PhaseView::Book), ActionView::GetBook { book_id: object_id })
        } else {
            (session, ActionView::Find { object_id, object_type })
        }
    }

    /// A download of the stored file that `row` points to, tried once: it
    /// starts by asking for the stored file, and a miss ends it.
    pub open spec fn from_entry(row: CachedFileView) -> (SessionView, ActionView) {
        (SessionView {
            goal: Goal::Download,
            object_id: row.object_id,
            object_type: row.object_type,
            phase: PhaseView::Find,
            retried: true,
        }).with_entry(row)
    }

    /// The request ends.
    pub open spec fn finish(self, outcome: OutcomeView) -> (SessionView, ActionView) {
        (self.at(PhaseView::Done), ActionView::Finish(outcome))
    }

    /// The index holds `row` for the object: that is all a lookup or a new
    /// copy is after; a download or a link goes on to ask for the stored
    /// file.
    pub open spec fn with_entry(self, row: CachedFileView) -> (SessionView, ActionView) {
        if self.goal == Goal::Lookup || self.goal == Goal::Populate {
            self.finish(OutcomeView::Entry(row))
        } else {
            (
                self.at(PhaseView::Join),
                ActionView::Join {
                    message_id: row.message_id,
                    chat_id: row.chat_id,
                    object_id: self.object_id,
                    object_type: self.object_type,
                },
            )
        }
    }

    /// The stored file could not be handed out: a download that has not
    /// started over yet starts over at the index, once; everything else
    /// ends with nothing.
    pub open spec fn missed(self) -> (SessionView, ActionView) {
        if self.goal == Goal::Download && !self.retried {
            (
                SessionView { phase: PhaseView::Find, retried: true, ..self },
                ActionView::Find { object_id: self.object_id, object_type: self.object_type },
            )
        } else {
            self.finish(OutcomeView::Absent)
        }
    }

    /// The stored file is at hand with its names and caption: a link goes
    /// on to spool it, everything else ends with it.
    pub open spec fn with_download(self, download: DownloadView) -> (SessionView, ActionView) {
        if self.goal == Goal::Link {
            (self.at(PhaseView::Spool { download }), ActionView::Spool { limit: SPOOL_LIMIT as int })
        } else {
            self.finish(OutcomeView::Download(download))
        }
    }

    /// The session and the action that follow when `event` answers the
    /// action asked for last. An answer that the phase is not waiting for,
    /// and every failure before the object store, end the request with
    /// nothing; a failure of the object store ends it as failed.
    pub open spec fn step(self, event: EventView) -> (SessionView, ActionView) {
        match (self.phase, event) {
            (PhaseView::Find, EventView::Found(Some(row))) => self.with_entry(row),
            (PhaseView::Find, EventView::Found(None)) => (
                self.at(PhaseView::Book),
                ActionView::GetBook { book_id: self.object_id },
            ),
            (PhaseView::Book, EventView::Book(Some(book))) => (
                self.at(PhaseView::Binary { caption: book_caption(book) }),
                ActionView::FetchBinary {
                    source_id: book.source_id,
                    remote_id: book.remote_id,
                    object_type: self.object_type,
                },
            ),
            (PhaseView::Binary { caption }, EventView::Binary(Binary::Stream)) => (
                self.at(PhaseView::Store),
                ActionView::Store { caption },
            ),
            (PhaseView::Store, EventView::Stored(Some(place))) => (
                self.at(PhaseView::Insert),
                ActionView::Insert {
                    object_id: self.object_id,
                    object_type: self.object_type,
                    message_id: place.message_id as int,
                    chat_id: place.chat_id as int,
                },
            ),
            (PhaseView::Insert, EventView::Inserted(Some(row))) => self.with_entry(row),
            (PhaseView::Join, EventView::Joined { file, names, book }) => {
                if file != (StoredFile::Answered { status: STATUS_OK }) {
                    (
                        self.at(PhaseView::Delete),
                        ActionView::Delete {
                            object_id: self.object_id,
                            object_type: self.object_type,
                        },
                    )
                } else if names is Some && book is Some {
                    self.with_download(
                        DownloadView {
                            filename: names->0.filename,
                            filename_ascii: names->0.filename_ascii,
                            caption: book_caption(book->0),
                        },
                    )
                } else {
                    self.missed()
                }
            },
            (PhaseView::Delete, EventView::Deleted) => self.missed(),
            (PhaseView::Spool { download }, EventView::Spooled(true)) => (
                self.at(PhaseView::Container { download }),
                ActionView::CheckContainer,
            ),
            (PhaseView::Container { download }, EventView::Container(Some(true))) => (
                self.at(PhaseView::Put { download }),
                ActionView::Put { key: download.filename },
            ),
            (PhaseView::Container { download }, EventView::Container(Some(false))) => (
                self.at(PhaseView::MakeContainer { download }),
                ActionView::MakeContainer,
            ),
            (PhaseView::Container { download }, EventView::Container(None)) => self.finish(
                OutcomeView::Failed,
            ),
            (PhaseView::MakeContainer { download }, EventView::ContainerMade) => (
                self.at(PhaseView::Put { download }),
                ActionView::Put { key: download.filename },
            ),
            (PhaseView::Put { download }, EventView::Put(true)) => (
                self.at(PhaseView::Presign { download }),
                ActionView::Presign { key: download.filename },
            ),
            (PhaseView::Put { download }, EventView::Put(false)) => self.finish(
                OutcomeView::Failed,
            ),
            (PhaseView::Presign { download }, EventView::Presigned(Some(link))) => self.finish(
                OutcomeView::Link(
                    FileLinkView {
                        link,
                        filename: download.filename,
                        filename_ascii: download.filename_ascii,
                        caption: download.caption,
                    },
                ),
            ),
            (PhaseView::Presign { download }, EventView::Presigned(None)) => self.finish(
                OutcomeView::Failed,
            ),
            _ => self.finish(OutcomeView::Absent),
        }
    }
}

impl Session {
    fn at(self, phase: Phase) -> (moved: Session)
        ensures
            moved@ == self@.at(phase@),
    {
        Session {
            goal: self.goal,
            object_id: self.object_id,
            object_type: self.object_type,
            phase,
            retried: self.retried,
        }
    }

    fn finish(self, outcome: Outcome) -> (next: (Session, Action))
        ensures
            (next.0@, next.1@) == self@.finish(outcome@),
    {
        (self.at(Phase::Done), Action::Finish(outcome))
    }

    fn with_entry(self, row: CachedFile) -> (next: (Session, Action))
        ensures
            (next.0@, next.1@) == self@.with_entry(row@),
    {
        match self.goal {
            Goal::Lookup | Goal::Populate => self.finish(Outcome::Entry(row)),
            Goal::Download | Goal::Link => {
                let action = Action::Join {
                    message_id: row.message_id,
                    chat_id: row.chat_id,
                    object_id: self.object_id,
                    object_type: self.object_type.clone(),
                };
                (self.at(Phase::Join), action)
            },
        }
    }

    fn missed(self) -> (next: (Session, Action))
        ensures
            (next.0@, next.1@) == self@.missed(),
    {
        match self.goal {
            Goal::Download => {
                if !self.retried {
                    let action = Action::Find {
                        object_id: self.object_id,
                        object_type: self.object_type.clone(),
                    };
                    let again = Session {
                        goal: self.goal,
                        object_id: self.object_id,
                        object_type: self.object_type,
                        phase: Phase::Find,
                        retried: true,
                    };
                    (again, action)
                } else {
                    self.finish(Outcome::Absent)
                }
            },
            _ => self.finish(Outcome::Absent),
        }
    }

    fn with_download(self, download: DownloadResult) -> (next: (Session, Action))
        ensures
            (next.0@, next.1@) == self@.with_download(download@),
    {
        match self.goal {
            Goal::Link => (self.at(Phase::Spool { download }), Action::Spool { limit: SPOOL_LIMIT }),
            _ => self.finish(Outcome::Download(download)),
        }
    }

    /// A session for `goal` on an object, and the first thing to do for it.
    pub fn start(goal: Goal, object_id: i32, object_type: String) -> (begun: (Session, Action))
        ensures
            (begun.0@, begun.1@) == SessionView::start(goal, object_id as int, object_type@),
    {
        match goal {
            Goal::Populate => (
                Session { goal, object_id, object_type, phase: Phase::Book, retried: false },
                Action::GetBook { book_id: object_id },
            ),
            _ => {
                let action = Action::Find { object_id, object_type: object_type.clone() };
                (
                    Session { goal, object_id, object_type, phase: Phase::Find, retried: false },
                    action,
                )
            },
        }
    }

    /// A download of the stored file that an index row points to, tried
    /// once, and the first thing to do for it.
    pub fn from_entry(row: CachedFile) -> (begun: (Session, Action))
        ensures
            (begun.0@, begun.1@) == SessionView::from_entry(row@),
    {
        let session = Session {
            goal: Goal::Download,
            object_id: row.object_id,
            object_type: row.object_type.clone(),
            phase: Phase::Find,
            retried: true,
        };
        session.with_entry(row)
    }

    /// Whether the request has ended.
    pub fn is_done(&self) -> (done: bool)
        ensures
            done == (self@.phase is Done),
    {
        match self.phase {
            Phase::Done => true,
            _ => false,
        }
    }

    /// Takes the answer to the action asked for last and says what to do
    /// next.
    pub fn step(self, event: Event) -> (next: (Session, Action))
        ensures
            (next.0@, next.1@) == self@.step(event@),
    {
        let ghost before = self@;
        let Session { goal, object_id, object_type, phase, retried } = self;
        let rest = Session { goal, object_id, object_type, phase: Phase::Done, retried };
        assert(rest@.at(before.phase) == before);
        match (phase, event) {
            (Phase::Find, Event::Found(Some(row))) => rest.at(Phase::Find).with_entry(row),
            (Phase::Find, Event::Found(None)) => {
                let action = Action::GetBook { book_id: rest.object_id };
                (rest.at(Phase::Book), action)
            },
            (Phase::Book, Event::Book(Some(book))) => {
                let action = Action::FetchBinary {
                    source_id: book.source.id,
                    remote_id: book.remote_id,
                    object_type: rest.object_type.clone(),
                };
                let caption = book.get_caption();
                (rest.at(Phase::Binary { caption }), action)
            },
            (Phase::Binary { caption }, Event::Binary(Binary::Stream)) => (
                rest.at(Phase::Store),
                Action::Store { caption },
            ),
            (Phase::Store, Event::Stored(Some(place))) => {
                let action = Action::Insert {
                    object_id: rest.object_id,
                    object_type: rest.object_type.clone(),
                    message_id: place.message_id,
                    chat_id: place.chat_id,
                };
                (rest.at(Phase::Insert), action)
            },
            (Phase::Insert, Event::Inserted(Some(row))) => rest.at(Phase::Insert).with_entry(row),
            (Phase::Join, Event::Joined { file, names, book }) => {
                let served = match file {
                    StoredFile::Answered { status } => status == STATUS_OK,
                    StoredFile::Failed => false,
                };
                if !served {
                    let action = Action::Delete {
                        object_id: rest.object_id,
                        object_type: rest.object_type.clone(),
                    };
                    (rest.at(Phase::Delete), action)
                } else {
                    match (names, book) {
                        (Some(names), Some(book)) => {
                            let download = DownloadResult {
                                filename: names.filename,
                                filename_ascii: names.filename_ascii,
                                caption: book.get_caption(),
                            };
                            rest.at(Phase::Join).with_download(download)
                        },
                        _ => rest.at(Phase::Join).missed(),
                    }
                }
            },
            (Phase::Delete, Event::Deleted) => rest.at(Phase::Delete).missed(),
            (Phase::Spool { download }, Event::Spooled(true)) => (
                rest.at(Phase::Container { download }),
                Action::CheckContainer,
            ),
            (Phase::Container { download }, Event::Container(Some(true))) => {
                let action = Action::Put { key: download.filename.clone() };
                (rest.at(Phase::Put { download }), action)
            },
            (Phase::Container { download }, Event::Container(Some(false))) => (
                rest.at(Phase::MakeContainer { download }),
                Action::MakeContainer,
            ),
            (Phase::Container { download }, Event::Container(None)) => rest.finish(
                Outcome::Failed,
            ),
            (Phase::MakeContainer { download }, Event::ContainerMade) => {
                let action = Action::Put { key: download.filename.clone() };
                (rest.at(Phase::Put { download }), action)
            },
            (Phase::Put { download }, Event::Put(true)) => {
                let action = Action::Presign { key: download.filename.clone() };
                (rest.at(Phase::Presign { download }), action)
            },
            (Phase::Put { download }, Event::Put(false)) => rest.finish(Outcome::Failed),
            (Phase::Presign { download }, Event::Presigned(Some(link))) => rest.finish(
                Outcome::Link(
                    FileLinkResult {
                        link,
                        filename: download.filename,
                        filename_ascii: download.filename_ascii,
                        caption: download.caption,
                    },
                ),
            ),
            (Phase::Presign { download }, Event::Presigned(None)) => rest.finish(Outcome::Failed),
            _ => rest.finish(Outcome::Absent),
        }
    }
}

/// A request ends as failed only where the object store fails: when it
/// cannot say whether the container exists, cannot take the file, or
/// cannot sign the link. Every other failure ends it with nothing.
pub proof fn lemma_failed_means_object_store(session: SessionView, event: EventView)
    ensures
        session.step(event).1 == ActionView::Finish(OutcomeView::Failed) <==> {
            ||| session.phase is Container && event == EventView::Container(None)
            ||| session.phase is Put && event == EventView::Put(false)
            ||| session.phase is Presign && event == EventView::Presigned(None)
        },
        session.goal != Goal::Link && !(session.phase is Spool || session.phase is Container
            || session.phase is MakeContainer || session.phase is Put || session.phase is Presign)
            ==> {
            let (next, asks) = session.step(event);
            !(next.phase is Spool || next.phase is Container || next.phase is MakeContainer
                || next.phase is Put || next.phase is Presign)
        },
{
}

} // verus!
