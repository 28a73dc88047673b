//! The content cache: attachment bytes keyed by their source URL, fetched
//! once and served from the store afterwards.
use vstd::prelude::*;

verus! {

/// A cached attachment: its source URL, its bytes and its MIME type.
#[derive(Debug)]
pub struct FileRow {
    pub url: String,
    pub inner: Vec<u8>,
    pub mime: String,
}

pub struct FileRowView {
    pub url: Seq<char>,
    pub inner: Seq<u8>,
    pub mime: Seq<char>,
}

impl View for FileRow {
    type V = FileRowView;

    open spec fn view(&self) -> FileRowView {
        FileRowView { url: self.url@, inner: self.inner@, mime: self.mime@ }
    }
}

impl FileRow {
    pub fn duplicate(&self) -> (r: FileRow)
        ensures
            r@ == self@,
    {
        FileRow { url: self.url.clone(), inner: self.inner.clone(), mime: self.mime.clone() }
    }
}

/// Why an attachment could not be had. The texts are the store's or the
/// network's own words.
#[derive(Debug)]
pub enum DbError {
    /// Reading the store failed.
    GetSql(String),
    /// Writing the store failed.
    InsertSql(String),
    /// The download failed.
    FetchFromUrl(String),
    /// The response carried no content type.
    NoCntentType,
    /// The response's content type is no text.
    InvalidContentType,
    /// An answer came that the fetch was not waiting for.
    OutOfSequence,
}

pub enum DbErrorView {
    GetSql(Seq<char>),
    InsertSql(Seq<char>),
    FetchFromUrl(Seq<char>),
    NoCntentType,
    InvalidContentType,
    OutOfSequence,
}

impl View for DbError {
    type V = DbErrorView;

    open spec fn view(&self) -> DbErrorView {
        match self {
            DbError::GetSql(e) => DbErrorView::GetSql(e@),
            DbError::InsertSql(e) => DbErrorView::InsertSql(e@),
            DbError::FetchFromUrl(e) => DbErrorView::FetchFromUrl(e@),
            DbError::NoCntentType => DbErrorView::NoCntentType,
            DbError::InvalidContentType => DbErrorView::InvalidContentType,
            DbError::OutOfSequence => DbErrorView::OutOfSequence,
        }
    }
}

/// The content-type header of a download, as far as the fetch reads it.
pub enum ContentType {
    Missing,
    NotText,
    Text(String),
}

/// What the driver of a fetch reports back.
pub enum FetchEvent {
    /// The store's row for the URL, if any.
    Row(Result<Option<FileRow>, String>),
    /// The download's response arrived (or failed), with its content type.
    Responded(Result<ContentType, String>),
    /// The response body was read.
    BodyRead(Result<Vec<u8>, String>),
    /// The row was written to the store.
    Inserted(Result<(), String>),
}

/// What the driver of a fetch does next.
#[derive(Debug)]
pub enum FetchAction {
    /// Read the store's row for `url`.
    QueryRow { url: String },
    /// Send the download request for `url`.
    Download { url: String },
    /// Read the body of the response.
    ReadBody,
    /// Write `row` to the store.
    InsertRow { row: FileRow },
    /// The fetch is over, with this outcome.
    Finish(Result<FileRow, DbError>),
}

pub enum FetchActionView {
    QueryRow(Seq<char>),
    Download(Seq<char>),
    ReadBody,
    InsertRow(FileRowView),
    Finish(Result<FileRowView, DbErrorView>),
}

impl View for FetchAction {
    type V = FetchActionView;

    open spec fn view(&self) -> FetchActionView {
        match self {
            FetchAction::QueryRow { url } => FetchActionView::QueryRow(url@),
            FetchAction::Download { url } => FetchActionView::Download(url@),
            FetchAction::ReadBody => FetchActionView::ReadBody,
            FetchAction::InsertRow { row } => FetchActionView::InsertRow(row@),
            FetchAction::Finish(Ok(r)) => FetchActionView::Finish(Ok(r@)),
            FetchAction::Finish(Err(e)) => FetchActionView::Finish(Err(e@)),
        }
    }
}

pub enum FetchEventView {
    Row(Result<Option<FileRowView>, Seq<char>>),
    Responded(Result<Option<Option<Seq<char>>>, Seq<char>>),
    BodyRead(Result<Seq<u8>, Seq<char>>),
    Inserted(Result<(), Seq<char>>),
}

impl View for FetchEvent {
    type V = FetchEventView;

    /// A content type reads as `None` when missing, `Some(None)` when no text.
    open spec fn view(&self) -> FetchEventView {
        match self {
            FetchEvent::Row(Ok(Some(r))) => FetchEventView::Row(Ok(Some(r@))),
            FetchEvent::Row(Ok(None)) => FetchEventView::Row(Ok(None)),
            FetchEvent::Row(Err(e)) => FetchEventView::Row(Err(e@)),
            FetchEvent::Responded(Ok(ContentType::Missing)) => FetchEventView::Responded(Ok(None)),
            FetchEvent::Responded(Ok(ContentType::NotText)) => FetchEventView::Responded(Ok(Some(None))),
            FetchEvent::Responded(Ok(ContentType::Text(m))) => FetchEventView::Responded(Ok(Some(Some(m@)))),
            FetchEvent::Responded(Err(e)) => FetchEventView::Responded(Err(e@)),
            FetchEvent::BodyRead(Ok(b)) => FetchEventView::BodyRead(Ok(b@)),
            FetchEvent::BodyRead(Err(e)) => FetchEventView::BodyRead(Err(e@)),
            FetchEvent::Inserted(Ok(())) => FetchEventView::Inserted(Ok(())),
            FetchEvent::Inserted(Err(e)) => FetchEventView::Inserted(Err(e@)),
        }
    }
}

enum FetchStage {
    Query,
    Download,
    Body { mime: String },
    Insert { row: FileRow },
    Done,
}

pub enum FetchStageView {
    Query,
    Download,
    Body(Seq<char>),
    Insert(FileRowView),
    Done,
}

/// One fetch of an attachment through the cache.
pub struct FileFetch {
    url: String,
    stage: FetchStage,
}

pub struct FileFetchView {
    pub url: Seq<char>,
    pub stage: FetchStageView,
}

impl View for FileFetch {
    type V = FileFetchView;

    closed spec fn view(&self) -> FileFetchView {
        FileFetchView {
            url: self.url@,
            stage: match &self.stage {
                FetchStage::Query => FetchStageView::Query,
                FetchStage::Download => FetchStageView::Download,
                FetchStage::Body { mime } => FetchStageView::Body(mime@),
                FetchStage::Insert { row } => FetchStageView::Insert(row@),
                FetchStage::Done => FetchStageView::Done,
            },
        }
    }
}

pub open spec fn fetch_finished(s: FileFetchView, outcome: Result<FileRowView, DbErrorView>) -> (FileFetchView, FetchActionView) {
    (FileFetchView { stage: FetchStageView::Done, ..s }, FetchActionView::Finish(outcome))
}

/// The next state and action of a fetch in state `s` on answer `e`.
///
/// A row in the store ends the fetch with that row and no network call. Else
/// the URL is downloaded: a missing content type, one that is no text, or a
/// failed request ends it with an error and writes nothing; otherwise the row
/// (URL, body, content type) is written, and once written, returned.
pub open spec fn fetch_next(s: FileFetchView, e: FetchEventView) -> (FileFetchView, FetchActionView) {
    match (s.stage, e) {
        (FetchStageView::Query, FetchEventView::Row(Err(msg))) => fetch_finished(s, Err(DbErrorView::GetSql(msg))),
        (FetchStageView::Query, FetchEventView::Row(Ok(Some(row)))) => fetch_finished(s, Ok(row)),
        (FetchStageView::Query, FetchEventView::Row(Ok(None))) => (
            FileFetchView { stage: FetchStageView::Download, ..s },
            FetchActionView::Download(s.url),
        ),
        (FetchStageView::Download, FetchEventView::Responded(Err(msg))) => fetch_finished(s, Err(DbErrorView::FetchFromUrl(msg))),
        (FetchStageView::Download, FetchEventView::Responded(Ok(None))) => fetch_finished(s, Err(DbErrorView::NoCntentType)),
        (FetchStageView::Download, FetchEventView::Responded(Ok(Some(None)))) => fetch_finished(s, Err(DbErrorView::InvalidContentType)),
        (FetchStageView::Download, FetchEventView::Responded(Ok(Some(Some(mime))))) => (
            FileFetchView { stage: FetchStageView::Body(mime), ..s },
            FetchActionView::ReadBody,
        ),
        (FetchStageView::Body(_), FetchEventView::BodyRead(Err(msg))) => fetch_finished(s, Err(DbErrorView::FetchFromUrl(msg))),
        (FetchStageView::Body(mime), FetchEventView::BodyRead(Ok(bytes))) => {
            let row = FileRowView { url: s.url, inner: bytes, mime };
            (FileFetchView { stage: FetchStageView::Insert(row), ..s }, FetchActionView::InsertRow(row))
        },
        (FetchStageView::Insert(_), FetchEventView::Inserted(Err(msg))) => fetch_finished(s, Err(DbErrorView::InsertSql(msg))),
        (FetchStageView::Insert(row), FetchEventView::Inserted(Ok(()))) => fetch_finished(s, Ok(row)),
        _ => fetch_finished(s, Err(DbErrorView::OutOfSequence)),
    }
}

impl FileFetch {
    /// Starts a fetch of `url`: first the store is asked for it.
    pub fn start(url: &str) -> (r: (FileFetch, FetchAction))
        ensures
            r.0@ == (FileFetchView { url: url@, stage: FetchStageView::Query }),
            r.1@ == FetchActionView::QueryRow(url@),
    {
        let f = FileFetch { url: String::from_str(url), stage: FetchStage::Query };
        (f, FetchAction::QueryRow { url: String::from_str(url) })
    }

    /// Whether the fetch is over.
    pub fn is_done(&self) -> (r: bool)
        ensures
            r == (self@.stage is Done),
    {
        match self.stage {
            FetchStage::Done => true,
            _ => false,
        }
    }

    fn finish(&mut self, outcome: Result<FileRow, DbError>) -> (r: FetchAction)
        ensures
            (final(self)@, r@) == fetch_finished(old(self)@, match outcome {
                Ok(row) => Ok(row@),
                Err(e) => Err(e@),
            }),
    {
        self.stage = FetchStage::Done;
        FetchAction::Finish(outcome)
    }

    /// Takes the answer to the last action and gives the next action.
    pub fn step(&mut self, event: FetchEvent) -> (r: FetchAction)
        ensures
            (final(self)@, r@) == fetch_next(old(self)@, event@),
    {
        let mut stage = FetchStage::Done;
        core::mem::swap(&mut stage, &mut self.stage);
        let ghost s = FileFetchView { url: self.url@, stage: old(self)@.stage };
        assert(s == old(self)@);
        match (stage, event) {
            (FetchStage::Query, FetchEvent::Row(Err(msg))) => self.finish(Err(DbError::GetSql(msg))),
            (FetchStage::Query, FetchEvent::Row(Ok(Some(row)))) => self.finish(Ok(row)),
            (FetchStage::Query, FetchEvent::Row(Ok(None))) => {
                self.stage = FetchStage::Download;
                FetchAction::Download { url: self.url.clone() }
            },
            (FetchStage::Download, FetchEvent::Responded(Err(msg))) => self.finish(Err(DbError::FetchFromUrl(msg))),
            (FetchStage::Download, FetchEvent::Responded(Ok(ContentType::Missing))) => self.finish(Err(DbError::NoCntentType)),
            (FetchStage::Download, FetchEvent::Responded(Ok(ContentType::NotText))) => self.finish(Err(DbError::InvalidContentType)),
            (FetchStage::Download, FetchEvent::Responded(Ok(ContentType::Text(mime)))) => {
                self.stage = FetchStage::Body { mime };
                FetchAction::ReadBody
            },
            (FetchStage::Body { mime: _ }, FetchEvent::BodyRead(Err(msg))) => self.finish(Err(DbError::FetchFromUrl(msg))),
            (FetchStage::Body { mime }, FetchEvent::BodyRead(Ok(bytes))) => {
                let row = FileRow { url: self.url.clone(), inner: bytes, mime };
                let copy = row.duplicate();
                self.stage = FetchStage::Insert { row };
                FetchAction::InsertRow { row: copy }
            },
            (FetchStage::Insert { row: _ }, FetchEvent::Inserted(Err(msg))) => self.finish(Err(DbError::InsertSql(msg))),
            (FetchStage::Insert { row }, FetchEvent::Inserted(Ok(()))) => self.finish(Ok(row)),
            (_, _) => self.finish(Err(DbError::OutOfSequence)),
        }
    }
}

/// A fetch that ends with a row has written that very row to the store
/// first; a later fetch of the same URL that finds the row in the store ends
/// at once with the same URL, bytes and type, and never downloads.
pub proof fn law_second_fetch_is_cached(first: FileFetchView, row: FileRowView)
    requires
        first.stage == FetchStageView::Insert(row),
    ensures
        fetch_next(first, FetchEventView::Inserted(Ok(()))).1 == FetchActionView::Finish(Ok(row)),
        ({
            let (second, action) = fetch_next(
                FileFetchView { url: row.url, stage: FetchStageView::Query },
                FetchEventView::Row(Ok(Some(row))),
            );
            &&& action == FetchActionView::Finish(Ok(row))
            &&& second.stage == FetchStageView::Done
        }),
{
}

} // verus!
