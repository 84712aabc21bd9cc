//! Unpacking an archive entry by entry while reporting progress.
//!
//! Reading the archive and writing files happen outside this crate. An
//! `Extraction` decides what is done with each entry; its driver reports what
//! happened outside as an `ExtractInput` and gets back the items to deliver to
//! the consumer and the next thing to do.

use crate::entry_path::{enclosed, enclosed_path, texts_view};
use crate::error::{ExtractError, ExtractErrorView};
use crate::progress::{ProgressEvent, ProgressView, Ratio};
use vstd::prelude::*;
use vstd::string::StringExecFns;

verus! {

/// The format of an archive.
#[derive(Clone, Copy, Debug, PartialEq, Eq, Structural)]
pub enum ArchiveKind {
    Zip,
    SevenZ,
}

/// Where an extraction stands.
#[derive(Clone, Copy, Debug, PartialEq, Eq, Structural)]
pub enum ExtractPhase {
    /// Nothing has been delivered yet.
    Idle,
    /// The archive is being opened.
    Opening,
    /// The destination directory is being made sure of.
    Preparing,
    /// The next entry is awaited.
    Reading,
    /// An entry is being written.
    Writing,
    /// All entries have been dealt with.
    Succeeded,
    /// The operation has ended with an error.
    Failed,
}

/// What the driver reports to an extraction.
#[derive(Debug)]
pub enum ExtractInput {
    /// The consumer has started to pull.
    Begin,
    /// The archive has been opened and holds this many entries.
    Opened { entries: u64 },
    /// The archive, or the entry asked for, is corrupt or cannot be decoded.
    ArchiveFailed(String),
    /// The destination directory exists, or has been created.
    DestinationReady,
    /// The entry asked for has been read. `name` is its stored path, or `None`
    /// if the decoder found no safe reading of it.
    EntryRead { name: Option<String>, is_dir: bool },
    /// The archive has no further entry.
    ArchiveEnded,
    /// The entry has been written as asked.
    EntryWritten,
    /// Opening the archive file, creating a directory or writing a file has
    /// failed.
    IoFailed(String),
}

/// What an `ExtractInput` says.
pub enum ExtractInputView {
    Begin,
    Opened { entries: u64 },
    ArchiveFailed(Seq<char>),
    DestinationReady,
    EntryRead { name: Option<Seq<char>>, is_dir: bool },
    ArchiveEnded,
    EntryWritten,
    IoFailed(Seq<char>),
}

impl View for ExtractInput {
    type V = ExtractInputView;

    open spec fn view(&self) -> ExtractInputView {
        match self {
            ExtractInput::Begin => ExtractInputView::Begin,
            ExtractInput::Opened { entries } => ExtractInputView::Opened { entries: *entries },
            ExtractInput::ArchiveFailed(text) => ExtractInputView::ArchiveFailed(text@),
            ExtractInput::DestinationReady => ExtractInputView::DestinationReady,
            ExtractInput::EntryRead { name, is_dir } => ExtractInputView::EntryRead {
                name: match name {
                    Some(text) => Some(text@),
                    None => None,
                },
                is_dir: *is_dir,
            },
            ExtractInput::ArchiveEnded => ExtractInputView::ArchiveEnded,
            ExtractInput::EntryWritten => ExtractInputView::EntryWritten,
            ExtractInput::IoFailed(text) => ExtractInputView::IoFailed(text@),
        }
    }
}

/// What the driver of an extraction is to do next.
#[derive(Debug)]
pub enum ExtractAction {
    /// Open the archive and count its entries.
    OpenArchive,
    /// Create the destination directory, with its parents, unless it exists.
    PrepareDestination,
    /// Read the entry with this index.
    ReadEntry(u64),
    /// Create the directory reached from the destination through these names,
    /// with its parents.
    CreateDirectory(Vec<String>),
    /// Write the bytes of the entry that was read to the file reached from the
    /// destination through these names, creating its parent directories as
    /// needed.
    WriteFile(Vec<String>),
    /// The input did not belong to the extraction's phase and was passed over:
    /// whatever was outstanding still is.
    KeepWaiting,
    /// The sequence of items has ended.
    Stop,
}

/// What an `ExtractAction` says.
pub enum ExtractActionView {
    OpenArchive,
    PrepareDestination,
    ReadEntry(u64),
    CreateDirectory(Seq<Seq<char>>),
    WriteFile(Seq<Seq<char>>),
    KeepWaiting,
    Stop,
}

impl View for ExtractAction {
    type V = ExtractActionView;

    open spec fn view(&self) -> ExtractActionView {
        match self {
            ExtractAction::OpenArchive => ExtractActionView::OpenArchive,
            ExtractAction::PrepareDestination => ExtractActionView::PrepareDestination,
            ExtractAction::ReadEntry(i) => ExtractActionView::ReadEntry(*i),
            ExtractAction::CreateDirectory(path) => ExtractActionView::CreateDirectory(
                texts_view(path@),
            ),
            ExtractAction::WriteFile(path) => ExtractActionView::WriteFile(texts_view(path@)),
            ExtractAction::KeepWaiting => ExtractActionView::KeepWaiting,
            ExtractAction::Stop => ExtractActionView::Stop,
        }
    }
}

/// What one item of an extraction says.
pub open spec fn item_view(item: Result<ProgressEvent, ExtractError>) -> Result<
    ProgressView,
    ExtractErrorView,
> {
    match item {
        Ok(event) => Ok(event@),
        Err(e) => Err(e@),
    }
}

/// The answer of an extraction to one input.
#[derive(Debug)]
pub struct ExtractStep {
    /// The items to deliver to the consumer, in order.
    pub items: Vec<Result<ProgressEvent, ExtractError>>,
    /// What to do next.
    pub action: ExtractAction,
}

/// What an `ExtractStep` says.
pub struct ExtractStepView {
    pub items: Seq<Result<ProgressView, ExtractErrorView>>,
    pub action: ExtractActionView,
}

impl View for ExtractStep {
    type V = ExtractStepView;

    open spec fn view(&self) -> ExtractStepView {
        ExtractStepView {
            items: Seq::new(self.items@.len(), |i: int| item_view(self.items@[i])),
            action: self.action@,
        }
    }
}

/// The status text of the first event of an extraction, whatever the format
/// of the archive.
pub open spec fn reading_message() -> Seq<char> {
    "Reading file..."@
}

/// The status text of the event that follows the writing of an entry.
pub open spec fn extracting_message(name: Seq<char>) -> Seq<char> {
    "Extracting "@ + name
}

/// The two events that end an extraction that went well, both with the ratio
/// 1. They say the same thing twice: a consumer takes the second as it took the
/// first.
pub open spec fn closing_events(kind: ArchiveKind) -> Seq<Result<ProgressView, ExtractErrorView>> {
    seq![
        Ok(ProgressView { ratio: Ratio { num: 1, den: 1 }, message: "Extraction done"@ }),
        Ok(
            ProgressView {
                ratio: Ratio { num: 1, den: 1 },
                message: match kind {
                    ArchiveKind::Zip => "Extraction complete"@,
                    ArchiveKind::SevenZ => "Extraction done"@,
                },
            },
        ),
    ]
}

/// An extraction as the contracts see it.
pub struct ExtractModel {
    pub kind: ArchiveKind,
    /// The path of the archive file.
    pub archive: Seq<char>,
    /// The path of the destination directory.
    pub destination: Seq<char>,
    pub phase: ExtractPhase,
    /// The number of entries of the archive.
    pub total: u64,
    /// The index of the entry that is awaited or being written.
    pub index: u64,
    /// The stored path of the entry that is being written.
    pub pending: Seq<char>,
}

impl ExtractModel {
    /// An extraction that has not begun.
    pub open spec fn initial(kind: ArchiveKind, archive: Seq<char>, destination: Seq<char>) -> ExtractModel {
        ExtractModel {
            kind,
            archive,
            destination,
            phase: ExtractPhase::Idle,
            total: 0,
            index: 0,
            pending: Seq::empty(),
        }
    }

    /// The extraction has not begun.
    pub open spec fn is_initial(self) -> bool {
        self == ExtractModel::initial(self.kind, self.archive, self.destination)
    }

    /// The operation has ended, one way or the other.
    pub open spec fn ended(self) -> bool {
        self.phase == ExtractPhase::Succeeded || self.phase == ExtractPhase::Failed
    }

    /// The extraction after an input that its phase has no use for.
    pub open spec fn passed_over(self) -> (ExtractModel, ExtractStepView) {
        (
            self,
            ExtractStepView {
                items: Seq::empty(),
                action: if self.ended() {
                    ExtractActionView::Stop
                } else {
                    ExtractActionView::KeepWaiting
                },
            },
        )
    }

    /// The extraction after a failure, and the step that reports it.
    pub open spec fn failed_with(self, e: ExtractErrorView) -> (ExtractModel, ExtractStepView) {
        (
            ExtractModel { phase: ExtractPhase::Failed, ..self },
            ExtractStepView { items: seq![Err(e)], action: ExtractActionView::Stop },
        )
    }

    /// The extraction once the entries before `next` have been dealt with, after
    /// delivering `items`: it goes on to the entry `next`, or ends with the
    /// closing events if there is none.
    pub open spec fn moved_to(
        self,
        next: int,
        items: Seq<Result<ProgressView, ExtractErrorView>>,
    ) -> (ExtractModel, ExtractStepView) {
        if next < self.total {
            (
                ExtractModel { phase: ExtractPhase::Reading, index: next as u64, ..self },
                ExtractStepView { items, action: ExtractActionView::ReadEntry(next as u64) },
            )
        } else {
            (
                ExtractModel { phase: ExtractPhase::Succeeded, index: self.total, ..self },
                ExtractStepView {
                    items: items + closing_events(self.kind),
                    action: ExtractActionView::Stop,
                },
            )
        }
    }

    /// The path below the destination to which an entry with the stored path
    /// `name` goes, if it goes anywhere.
    pub open spec fn target(name: Option<Seq<char>>) -> Option<Seq<Seq<char>>> {
        match name {
            Some(text) => enclosed(text),
            None => None,
        }
    }

    /// The extraction after `input`, and its answer.
    pub open spec fn step(self, input: ExtractInputView) -> (ExtractModel, ExtractStepView) {
        match (self.phase, input) {
            (ExtractPhase::Idle, ExtractInputView::Begin) => (
                ExtractModel { phase: ExtractPhase::Opening, ..self },
                ExtractStepView {
                    items: seq![
                        Ok(
                            ProgressView {
                                ratio: Ratio { num: 0, den: 1 },
                                message: reading_message(),
                            },
                        ),
                    ],
                    action: ExtractActionView::OpenArchive,
                },
            ),
            (ExtractPhase::Opening, ExtractInputView::Opened { entries }) => (
                ExtractModel { phase: ExtractPhase::Preparing, total: entries, ..self },
                ExtractStepView {
                    items: Seq::empty(),
                    action: ExtractActionView::PrepareDestination,
                },
            ),
            (ExtractPhase::Opening, ExtractInputView::ArchiveFailed(text)) => self.failed_with(
                ExtractErrorView::ArchiveError(text),
            ),
            (ExtractPhase::Opening, ExtractInputView::IoFailed(text)) => self.failed_with(
                ExtractErrorView::IoError(text),
            ),
            (ExtractPhase::Preparing, ExtractInputView::DestinationReady) => self.moved_to(
                0,
                Seq::empty(),
            ),
            (ExtractPhase::Preparing, ExtractInputView::IoFailed(text)) => self.failed_with(
                ExtractErrorView::IoError(text),
            ),
            (ExtractPhase::Reading, ExtractInputView::EntryRead { name, is_dir }) => {
                match ExtractModel::target(name) {
                    None => self.moved_to(self.index + 1, Seq::empty()),
                    Some(path) => (
                        ExtractModel { phase: ExtractPhase::Writing, pending: name->Some_0, ..self },
                        ExtractStepView {
                            items: Seq::empty(),
                            action: if is_dir {
                                ExtractActionView::CreateDirectory(path)
                            } else {
                                ExtractActionView::WriteFile(path)
                            },
                        },
                    ),
                }
            },
            (ExtractPhase::Reading, ExtractInputView::ArchiveEnded) => (
                ExtractModel { phase: ExtractPhase::Succeeded, ..self },
                ExtractStepView {
                    items: closing_events(self.kind),
                    action: ExtractActionView::Stop,
                },
            ),
            (ExtractPhase::Reading, ExtractInputView::ArchiveFailed(text)) => self.failed_with(
                ExtractErrorView::ArchiveError(text),
            ),
            (ExtractPhase::Reading, ExtractInputView::IoFailed(text)) => self.failed_with(
                ExtractErrorView::IoError(text),
            ),
            (ExtractPhase::Writing, ExtractInputView::EntryWritten) => self.moved_to(
                self.index + 1,
                seq![
                    Ok(
                        ProgressView {
                            ratio: Ratio::spec_of(self.index + 1, self.total as int),
                            message: extracting_message(self.pending),
                        },
                    ),
                ],
            ),
            (ExtractPhase::Writing, ExtractInputView::ArchiveFailed(text)) => self.failed_with(
                ExtractErrorView::ArchiveError(text),
            ),
            (ExtractPhase::Writing, ExtractInputView::IoFailed(text)) => self.failed_with(
                ExtractErrorView::IoError(text),
            ),
            _ => self.passed_over(),
        }
    }
}

/// An extraction in progress.
pub struct Extraction {
    kind: ArchiveKind,
    archive: String,
    destination: String,
    phase: ExtractPhase,
    total: u64,
    index: u64,
    pending: String,
}

impl View for Extraction {
    type V = ExtractModel;

    closed spec fn view(&self) -> ExtractModel {
        ExtractModel {
            kind: self.kind,
            archive: self.archive@,
            destination: self.destination@,
            phase: self.phase,
            total: self.total,
            index: self.index,
            pending: self.pending@,
        }
    }
}

fn prepare(kind: ArchiveKind, file: &str, out_path: &str) -> (e: Extraction)
    ensures
        e@ == ExtractModel::initial(kind, file@, out_path@),
{
    Extraction {
        kind,
        archive: String::from_str(file),
        destination: String::from_str(out_path),
        phase: ExtractPhase::Idle,
        total: 0,
        index: 0,
        pending: String::new(),
    }
}

/// Prepares the extraction of the 7z archive `file` into the directory
/// `out_path`. Nothing has happened yet: the extraction is idle until its driver
/// reports `ExtractInput::Begin`.
pub fn extract(file: &str, out_path: &str) -> (e: Extraction)
    ensures
        e@ == ExtractModel::initial(ArchiveKind::SevenZ, file@, out_path@),
{
    prepare(ArchiveKind::SevenZ, file, out_path)
}

/// Prepares the extraction of the zip archive `file` into the directory
/// `out_path`. Nothing has happened yet: the extraction is idle until its driver
/// reports `ExtractInput::Begin`.
pub fn extract_zip(file: &str, out_path: &str) -> (e: Extraction)
    ensures
        e@ == ExtractModel::initial(ArchiveKind::Zip, file@, out_path@),
{
    prepare(ArchiveKind::Zip, file, out_path)
}

impl Extraction {
    /// The format of the archive.
    pub fn kind(&self) -> (kind: ArchiveKind)
        ensures
            kind == self@.kind,
    {
        self.kind
    }

    /// The path of the archive file.
    pub fn archive(&self) -> (path: &String)
        ensures
            path@ == self@.archive,
    {
        &self.archive
    }

    /// The path of the destination directory.
    pub fn destination(&self) -> (path: &String)
        ensures
            path@ == self@.destination,
    {
        &self.destination
    }

    /// Where the extraction stands.
    pub fn phase(&self) -> (phase: ExtractPhase)
        ensures
            phase == self@.phase,
    {
        self.phase
    }

    fn pass_over(&self) -> (out: ExtractStep)
        ensures
            (self@, out@) == self@.passed_over(),
    {
        let ended = match self.phase {
            ExtractPhase::Succeeded => true,
            ExtractPhase::Failed => true,
            _ => false,
        };
        let out = ExtractStep {
            items: Vec::new(),
            action: if ended {
                ExtractAction::Stop
            } else {
                ExtractAction::KeepWaiting
            },
        };
        assert(out@.items =~= Seq::empty());
        out
    }

    fn fail_with(&mut self, e: ExtractError) -> (out: ExtractStep)
        ensures
            (final(self)@, out@) == old(self)@.failed_with(e@),
    {
        self.phase = ExtractPhase::Failed;
        let mut items: Vec<Result<ProgressEvent, ExtractError>> = Vec::new();
        items.push(Err(e));
        let out = ExtractStep { items, action: ExtractAction::Stop };
        assert(out@.items =~= seq![Err(e@)]);
        out
    }

    fn push_closing_events(&self, items: &mut Vec<Result<ProgressEvent, ExtractError>>)
        ensures
            Seq::new(final(items)@.len(), |i: int| item_view(final(items)@[i])) == Seq::new(
                old(items)@.len(),
                |i: int| item_view(old(items)@[i]),
            ) + closing_events(self@.kind),
    {
        let ghost before = Seq::new(items@.len(), |i: int| item_view(items@[i]));
        items.push(Ok(ProgressEvent { ratio: Ratio::one(), message: String::from_str("Extraction done") }));
        let last = match self.kind {
            ArchiveKind::Zip => String::from_str("Extraction complete"),
            ArchiveKind::SevenZ => String::from_str("Extraction done"),
        };
        items.push(Ok(ProgressEvent { ratio: Ratio::one(), message: last }));
        assert(Seq::new(items@.len(), |i: int| item_view(items@[i])) =~= before + closing_events(
            self@.kind,
        ));
    }

    fn next_index(&self) -> (next: u64)
        ensures
            next <= self@.total || next == self@.index + 1,
            self@.index < self@.total ==> next == self@.index + 1,
            self@.index >= self@.total ==> next == self@.total,
    {
        if self.index < self.total {
            self.index + 1
        } else {
            self.total
        }
    }

    fn move_to(
        &mut self,
        next: u64,
        Ghost(wanted): Ghost<int>,
        items: Vec<Result<ProgressEvent, ExtractError>>,
    ) -> (out: ExtractStep)
        requires
            wanted == next || (wanted >= old(self)@.total && next >= old(self)@.total),
        ensures
            (final(self)@, out@) == old(self)@.moved_to(
                wanted,
                Seq::new(items@.len(), |i: int| item_view(items@[i])),
            ),
    {
        let mut items = items;
        if next < self.total {
            self.phase = ExtractPhase::Reading;
            self.index = next;
            ExtractStep { items, action: ExtractAction::ReadEntry(next) }
        } else {
            self.push_closing_events(&mut items);
            self.phase = ExtractPhase::Succeeded;
            self.index = self.total;
            ExtractStep { items, action: ExtractAction::Stop }
        }
    }

    /// Takes one report of the driver and answers with the items to deliver
    /// and the next thing to do.
    ///
    /// An entry whose stored path has no safe reading below the destination is
    /// skipped: nothing is written for it and no item is delivered. For every
    /// other entry one progress event follows its writing. An input that the
    /// current phase has no use for changes nothing. Once the extraction has
    /// succeeded or failed, every answer is `Stop` with no item.
    pub fn step(&mut self, input: ExtractInput) -> (out: ExtractStep)
        ensures
            (final(self)@, out@) == old(self)@.step(input@),
    {
        match (self.phase, input) {
            (ExtractPhase::Idle, ExtractInput::Begin) => {
                self.phase = ExtractPhase::Opening;
                let message = String::from_str("Reading file...");
                let mut items: Vec<Result<ProgressEvent, ExtractError>> = Vec::new();
                items.push(Ok(ProgressEvent { ratio: Ratio::zero(), message }));
                let out = ExtractStep { items, action: ExtractAction::OpenArchive };
                assert(out@.items =~= old(self)@.step(input@).1.items);
                out
            },
            (ExtractPhase::Opening, ExtractInput::Opened { entries }) => {
                self.phase = ExtractPhase::Preparing;
                self.total = entries;
                let out = ExtractStep { items: Vec::new(), action: ExtractAction::PrepareDestination };
                assert(out@.items =~= Seq::empty());
                out
            },
            (ExtractPhase::Opening, ExtractInput::ArchiveFailed(text)) => self.fail_with(
                ExtractError::ArchiveError(text),
            ),
            (ExtractPhase::Opening, ExtractInput::IoFailed(text)) => self.fail_with(
                ExtractError::IoError(text),
            ),
            (ExtractPhase::Preparing, ExtractInput::DestinationReady) => {
                let items: Vec<Result<ProgressEvent, ExtractError>> = Vec::new();
                assert(Seq::new(items@.len(), |i: int| item_view(items@[i])) =~= Seq::empty());
                self.move_to(0, Ghost(0), items)
            },
            (ExtractPhase::Preparing, ExtractInput::IoFailed(text)) => self.fail_with(
                ExtractError::IoError(text),
            ),
            (ExtractPhase::Reading, ExtractInput::EntryRead { name, is_dir }) => {
                let target = match &name {
                    Some(text) => enclosed_path(text.as_str()),
                    None => None,
                };
                match (target, name) {
                    (Some(path), Some(text)) => {
                        self.phase = ExtractPhase::Writing;
                        self.pending = text;
                        let out = ExtractStep {
                            items: Vec::new(),
                            action: if is_dir {
                                ExtractAction::CreateDirectory(path)
                            } else {
                                ExtractAction::WriteFile(path)
                            },
                        };
                        assert(out@.items =~= Seq::empty());
                        out
                    },
                    _ => {
                        let items: Vec<Result<ProgressEvent, ExtractError>> = Vec::new();
                        assert(Seq::new(items@.len(), |i: int| item_view(items@[i]))
                            =~= Seq::empty());
                        let next = self.next_index();
                        self.move_to(next, Ghost(self@.index + 1), items)
                    },
                }
            },
            (ExtractPhase::Reading, ExtractInput::ArchiveEnded) => {
                let mut items: Vec<Result<ProgressEvent, ExtractError>> = Vec::new();
                assert(Seq::new(items@.len(), |i: int| item_view(items@[i])) =~= Seq::empty());
                self.push_closing_events(&mut items);
                self.phase = ExtractPhase::Succeeded;
                let out = ExtractStep { items, action: ExtractAction::Stop };
                assert(out@.items =~= closing_events(self@.kind));
                out
            },
            (ExtractPhase::Reading, ExtractInput::ArchiveFailed(text)) => self.fail_with(
                ExtractError::ArchiveError(text),
            ),
            (ExtractPhase::Reading, ExtractInput::IoFailed(text)) => self.fail_with(
                ExtractError::IoError(text),
            ),
            (ExtractPhase::Writing, ExtractInput::EntryWritten) => {
                let mut message = String::from_str("Extracting ");
                message.append(self.pending.as_str());
                let ratio = Ratio::of(self.index.saturating_add(1), self.total);
                let event = ProgressEvent { ratio, message };
                let mut items: Vec<Result<ProgressEvent, ExtractError>> = Vec::new();
                items.push(Ok(event));
                assert(Seq::new(items@.len(), |i: int| item_view(items@[i])) =~= seq![
                    Ok(event@),
                ]);
                let next = self.next_index();
                self.move_to(next, Ghost(self@.index + 1), items)
            },
            (ExtractPhase::Writing, ExtractInput::ArchiveFailed(text)) => self.fail_with(
                ExtractError::ArchiveError(text),
            ),
            (ExtractPhase::Writing, ExtractInput::IoFailed(text)) => self.fail_with(
                ExtractError::IoError(text),
            ),
            _ => self.pass_over(),
        }
    }
}

} // verus!
