//! The lifecycle of a file-backed document.
//!
//! The document here holds no file. It decides: each operation that touches
//! the file is split into the question of what the file needs and the report
//! of how that went, and the caller does the reading and writing in between.

use std::rc::Rc;
use vstd::prelude::*;
use vstd::string::*;
use crate::dataset::Dataset;
use crate::error::DicomError;
use crate::tag::Attribute;

verus! {

/// Where a document stands in its lifecycle.
#[derive(Debug, Clone, Copy, PartialEq, Eq, Structural)]
pub enum DocumentState {
    Open,
    Closed,
    Modified,
}

/// Whether a document may be written.
#[derive(Debug, Clone, Copy, PartialEq, Eq, Structural)]
pub enum DocumentMode {
    ReadOnly,
    ReadWrite,
}

/// How new content meets what the file holds already.
#[derive(Debug, Clone, Copy, PartialEq, Eq, Structural)]
pub enum WritingMode {
    Append,
    Overwrite,
    Truncate,
}

/// What the file needs before the encoded bytes are written to it.
#[derive(Debug, Clone, Copy, PartialEq, Eq, Structural)]
pub enum WriteStep {
    /// Cut the file to length zero, then write.
    TruncateThenWrite,
    /// Move to the end of the file, then write.
    SeekEndThenWrite,
    /// Write where the file stands.
    Write,
}

/// The state of a document whose file the caller holds.
#[derive(Debug)]
pub struct DicomDocument {
    path: Option<String>,
    state: DocumentState,
    dataset: Option<Dataset>,
    mode: DocumentMode,
    writer: WritingMode,
    should_sync: bool,
}

/// A document as plain values.
pub struct DocumentView {
    pub path: Option<Seq<char>>,
    pub state: DocumentState,
    pub dataset: Option<Seq<Rc<Attribute>>>,
    pub mode: DocumentMode,
    pub writer: WritingMode,
    pub should_sync: bool,
}

/// The writing mode of a freshly opened document: append to a file that was
/// there, overwrite one that had to be made.
pub open spec fn initial_writer(existed: bool) -> WritingMode {
    if existed {
        WritingMode::Append
    } else {
        WritingMode::Overwrite
    }
}

/// What the file needs before a write, by writing mode.
pub open spec fn step_of(writer: WritingMode) -> WriteStep {
    match writer {
        WritingMode::Truncate => WriteStep::TruncateThenWrite,
        WritingMode::Append => WriteStep::SeekEndThenWrite,
        WritingMode::Overwrite => WriteStep::Write,
    }
}

impl DocumentView {
    /// A document just opened: open, writable, with nothing read yet.
    pub open spec fn opened(path: Seq<char>, existed: bool) -> DocumentView {
        DocumentView {
            path: Some(path),
            state: DocumentState::Open,
            dataset: None,
            mode: DocumentMode::ReadWrite,
            writer: initial_writer(existed),
            should_sync: true,
        }
    }

    /// This document after a read that loaded `dataset`.
    pub open spec fn loaded(self, dataset: Seq<Rc<Attribute>>) -> DocumentView {
        DocumentView {
            dataset: Some(dataset),
            state: DocumentState::Closed,
            should_sync: false,
            ..self
        }
    }

    /// What the file needs before a write; nothing where the document refuses to be written.
    pub open spec fn write_step(self) -> Option<WriteStep> {
        match self.mode {
            DocumentMode::ReadOnly => None,
            DocumentMode::ReadWrite => Some(step_of(self.writer)),
        }
    }

    /// This document after a write.
    pub open spec fn written(self) -> DocumentView {
        DocumentView { state: DocumentState::Modified, ..self }
    }

    /// This document after it was closed.
    pub open spec fn closed(self) -> DocumentView {
        DocumentView {
            path: None,
            state: DocumentState::Closed,
            mode: DocumentMode::ReadOnly,
            ..self
        }
    }
}

/// Whether `e` is the error of a document that refuses to be written.
pub open spec fn is_read_only_error(e: DicomError) -> bool {
    e matches DicomError::IOError(m) && m@ == "Document is read-only"@
}

impl View for DicomDocument {
    type V = DocumentView;

    closed spec fn view(&self) -> DocumentView {
        DocumentView {
            path: match self.path {
                Some(p) => Some(p@),
                None => None,
            },
            state: self.state,
            dataset: match self.dataset {
                Some(d) => Some(d@),
                None => None,
            },
            mode: self.mode,
            writer: self.writer,
            should_sync: self.should_sync,
        }
    }
}

impl DicomDocument {
    #[verifier::type_invariant]
    spec fn holds_what_it_read(self) -> bool {
        !self.should_sync ==> self.dataset is Some
    }

    /// The document for the file at `path`, just opened. `existed` tells
    /// whether the file was there before.
    pub fn open(path: &str, existed: bool) -> (res: DicomDocument)
        ensures
            res@ == DocumentView::opened(path@, existed),
    {
        DicomDocument {
            path: Some(String::from_str(path)),
            state: DocumentState::Open,
            dataset: None,
            mode: DocumentMode::ReadWrite,
            writer: if existed {
                WritingMode::Append
            } else {
                WritingMode::Overwrite
            },
            should_sync: true,
        }
    }

    /// Chooses another writing mode than the one the document was opened with.
    pub fn set_writing_mode(&mut self, writer: WritingMode)
        ensures
            final(self)@ == (DocumentView { writer, ..old(self)@ }),
    {
        proof {
            use_type_invariant(&*self);
        }
        self.writer = writer;
    }

    /// Makes the next read load the file again.
    pub fn refresh(&mut self)
        ensures
            final(self)@ == (DocumentView { should_sync: true, ..old(self)@ }),
    {
        proof {
            use_type_invariant(&*self);
        }
        self.should_sync = true;
    }

    /// Whether a read has to load the file.
    pub fn needs_read(&self) -> (res: bool)
        ensures
            res == self@.should_sync,
    {
        self.should_sync
    }

    /// Finishes a read. Where the file had to be loaded, `loaded` is what
    /// came of loading and decoding it: a dataset becomes the document's own
    /// and the document is closed to further loading until it is refreshed,
    /// an error is handed on and nothing changes. Where no load was needed,
    /// `loaded` is not looked at.
    pub fn read(&mut self, loaded: Result<Dataset, DicomError>) -> (res: Result<(), DicomError>)
        ensures
            if !old(self)@.should_sync {
                res is Ok && final(self)@ == old(self)@
            } else {
                match loaded {
                    Ok(d) => res is Ok && final(self)@ == old(self)@.loaded(d@),
                    Err(e) => res == Err::<(), DicomError>(e) && final(self)@ == old(self)@,
                }
            },
            res is Ok ==> final(self)@.dataset is Some,
    {
        proof {
            use_type_invariant(&*self);
        }
        if !self.should_sync {
            return Ok(());
        }
        match loaded {
            Ok(d) => {
                self.dataset = Some(d);
                self.state = DocumentState::Closed;
                self.should_sync = false;
                Ok(())
            },
            Err(e) => Err(e),
        }
    }

    /// The dataset that was read last, if any was.
    pub fn dataset(&self) -> (res: Option<&Dataset>)
        ensures
            match res {
                Some(d) => self@.dataset == Some(d@),
                None => self@.dataset is None && self@.should_sync,
            },
    {
        proof {
            use_type_invariant(self);
        }
        self.dataset.as_ref()
    }

    /// Decides how a write goes about the file. A read-only document refuses.
    pub fn write(&self) -> (res: Result<WriteStep, DicomError>)
        ensures
            match self@.write_step() {
                Some(step) => res == Ok::<WriteStep, DicomError>(step),
                None => res matches Err(e) && is_read_only_error(e),
            },
    {
        match self.mode {
            DocumentMode::ReadOnly => Err(
                DicomError::IOError(String::from_str("Document is read-only")),
            ),
            DocumentMode::ReadWrite => Ok(
                match self.writer {
                    WritingMode::Truncate => WriteStep::TruncateThenWrite,
                    WritingMode::Append => WriteStep::SeekEndThenWrite,
                    WritingMode::Overwrite => WriteStep::Write,
                },
            ),
        }
    }

    /// Finishes a write: `outcome` is what came of writing the file. After a
    /// write that went well the document is modified; an error is handed on
    /// and nothing changes. A read-only document refuses, whatever the outcome.
    pub fn finish_write(&mut self, outcome: Result<(), DicomError>) -> (res: Result<
        (),
        DicomError,
    >)
        ensures
            match (old(self)@.write_step(), outcome) {
                (None, _) => {
                    &&& res matches Err(e)
                    &&& is_read_only_error(e)
                    &&& final(self)@ == old(self)@
                },
                (Some(_), Ok(_)) => res is Ok && final(self)@ == old(self)@.written(),
                (Some(_), Err(e)) => res == Err::<(), DicomError>(e) && final(self)@ == old(
                    self,
                )@,
            },
    {
        proof {
            use_type_invariant(&*self);
        }
        match self.mode {
            DocumentMode::ReadOnly => Err(
                DicomError::IOError(String::from_str("Document is read-only")),
            ),
            DocumentMode::ReadWrite => match outcome {
                Ok(_) => {
                    self.state = DocumentState::Modified;
                    Ok(())
                },
                Err(e) => Err(e),
            },
        }
    }

    /// Closes the document: `synced` is what came of flushing the file. After
    /// a flush that went well the path is gone and the document is closed and
    /// read-only; an error is handed on and nothing changes.
    pub fn close(&mut self, synced: Result<(), DicomError>) -> (res: Result<(), DicomError>)
        ensures
            match synced {
                Ok(_) => res is Ok && final(self)@ == old(self)@.closed(),
                Err(e) => res == Err::<(), DicomError>(e) && final(self)@ == old(self)@,
            },
    {
        proof {
            use_type_invariant(&*self);
        }
        match synced {
            Ok(_) => {
                self.path = None;
                self.state = DocumentState::Closed;
                self.mode = DocumentMode::ReadOnly;
                Ok(())
            },
            Err(e) => Err(e),
        }
    }

    /// Whether the document is open.
    pub fn is_open(&self) -> (res: bool)
        ensures
            res == (self@.state == DocumentState::Open),
    {
        match self.state {
            DocumentState::Open => true,
            _ => false,
        }
    }

    /// Whether the document was written since it was opened.
    pub fn is_modified(&self) -> (res: bool)
        ensures
            res == (self@.state == DocumentState::Modified),
    {
        match self.state {
            DocumentState::Modified => true,
            _ => false,
        }
    }

    /// The path of the file; none once the document is closed.
    pub fn get_path(&self) -> (res: Option<&str>)
        ensures
            match res {
                Some(p) => self@.path == Some(p@),
                None => self@.path is None,
            },
    {
        match &self.path {
            Some(p) => Some(p.as_str()),
            None => None,
        }
    }

    /// The state of the document.
    pub fn get_state(&self) -> (res: DocumentState)
        ensures
            res == self@.state,
    {
        self.state
    }

    /// The access mode of the document.
    pub fn get_mode(&self) -> (res: DocumentMode)
        ensures
            res == self@.mode,
    {
        self.mode
    }

    /// The writing mode of the document.
    pub fn get_writing_mode(&self) -> (res: WritingMode)
        ensures
            res == self@.writer,
    {
        self.writer
    }
}

/// A closed document refuses to be written, and stays so whether it is
/// refreshed or read afterwards.
pub proof fn lemma_closed_refuses_write(v: DocumentView, dataset: Seq<Rc<Attribute>>)
    ensures
        v.closed().write_step() is None,
        v.closed().loaded(dataset).write_step() is None,
        v.closed().path is None,
{
}

/// A document opened on a file that was not there overwrites, one opened on
/// a file that was there appends, and both can be written.
pub proof fn lemma_opened_disposition(path: Seq<char>)
    ensures
        DocumentView::opened(path, false).writer == WritingMode::Overwrite,
        DocumentView::opened(path, true).writer == WritingMode::Append,
        DocumentView::opened(path, false).write_step() == Some(WriteStep::Write),
        DocumentView::opened(path, true).write_step() == Some(WriteStep::SeekEndThenWrite),
{
}

} // verus!
