//! Downloading a file while hashing it and reporting progress.
//!
//! The transfer itself happens outside this crate. A `Download` holds what the
//! operation has decided so far; its driver reports each thing that happened
//! outside as a `DownloadInput` and gets back the item to deliver to the consumer,
//! if there is one, and the next thing to do.

use crate::digest::{current_digest, feed_hasher, hasher_input, new_hasher, sha256, Sha256Stream};
use crate::error::{DownloadError, DownloadErrorView};
use crate::hex_text::{decode_hex, encode_hex, hex_decoding, hex_encoding, HexError};
use crate::progress::{ProgressEvent, ProgressView, Ratio};
use vstd::prelude::*;
use vstd::string::{StringExecFns, StringSliceAdditionalSpecFns};
use vstd::utf8::encode_utf8;

verus! {

/// Where a download stands.
#[derive(Clone, Copy, Debug, PartialEq, Eq, Structural)]
pub enum Phase {
    /// Nothing has been delivered yet.
    Idle,
    /// The request is out; its response is awaited.
    Requesting,
    /// The response has arrived; the destination file is being created.
    Creating,
    /// The next chunk of the body is awaited.
    Reading,
    /// A chunk is being written to the destination file.
    Writing,
    /// The body has ended and the hash, if one was expected, has matched.
    Succeeded,
    /// The operation has ended with an error.
    Failed,
}

/// What the driver reports to a download.
#[derive(Debug)]
pub enum DownloadInput {
    /// The consumer has started to pull.
    Begin,
    /// The response has arrived, with the length it declares, if any.
    ResponseReceived { content_length: Option<u64> },
    /// The request, or reading the body, has failed.
    RequestFailed(String),
    /// The destination file has been created anew.
    FileCreated,
    /// A chunk of the body has arrived.
    ChunkReceived(Vec<u8>),
    /// The chunk handed out last has been appended to the destination file.
    ChunkWritten,
    /// Creating the destination file, or writing to it, has failed.
    IoFailed(String),
    /// The body has ended.
    BodyEnded,
}

/// What a `DownloadInput` says.
pub enum DownloadInputView {
    Begin,
    ResponseReceived { content_length: Option<u64> },
    RequestFailed(Seq<char>),
    FileCreated,
    ChunkReceived(Seq<u8>),
    ChunkWritten,
    IoFailed(Seq<char>),
    BodyEnded,
}

impl View for DownloadInput {
    type V = DownloadInputView;

    open spec fn view(&self) -> DownloadInputView {
        match self {
            DownloadInput::Begin => DownloadInputView::Begin,
            DownloadInput::ResponseReceived { content_length } => {
                DownloadInputView::ResponseReceived { content_length: *content_length }
            },
            DownloadInput::RequestFailed(text) => DownloadInputView::RequestFailed(text@),
            DownloadInput::FileCreated => DownloadInputView::FileCreated,
            DownloadInput::ChunkReceived(bytes) => DownloadInputView::ChunkReceived(bytes@),
            DownloadInput::ChunkWritten => DownloadInputView::ChunkWritten,
            DownloadInput::IoFailed(text) => DownloadInputView::IoFailed(text@),
            DownloadInput::BodyEnded => DownloadInputView::BodyEnded,
        }
    }
}

/// What the driver of a download is to do next.
#[derive(Debug)]
pub enum DownloadAction {
    /// Send a GET request to the download's URL.
    SendRequest,
    /// Create the destination file, failing if it exists.
    CreateFile,
    /// Wait for the next chunk of the body.
    ReadChunk,
    /// Append these bytes to the destination file.
    WriteChunk(Vec<u8>),
    /// The input did not belong to the download's phase and was passed over:
    /// whatever was outstanding still is.
    KeepWaiting,
    /// The sequence of items has ended.
    Stop,
}

/// What a `DownloadAction` says.
pub enum DownloadActionView {
    SendRequest,
    CreateFile,
    ReadChunk,
    WriteChunk(Seq<u8>),
    KeepWaiting,
    Stop,
}

impl View for DownloadAction {
    type V = DownloadActionView;

    open spec fn view(&self) -> DownloadActionView {
        match self {
            DownloadAction::SendRequest => DownloadActionView::SendRequest,
            DownloadAction::CreateFile => DownloadActionView::CreateFile,
            DownloadAction::ReadChunk => DownloadActionView::ReadChunk,
            DownloadAction::WriteChunk(bytes) => DownloadActionView::WriteChunk(bytes@),
            DownloadAction::KeepWaiting => DownloadActionView::KeepWaiting,
            DownloadAction::Stop => DownloadActionView::Stop,
        }
    }
}

/// The answer of a download to one input.
#[derive(Debug)]
pub struct DownloadStep {
    /// The item to deliver to the consumer, if the input gave rise to one.
    pub item: Option<Result<ProgressEvent, DownloadError>>,
    /// What to do next.
    pub action: DownloadAction,
}

/// What a `DownloadStep` says.
pub struct DownloadStepView {
    pub item: Option<Result<ProgressView, DownloadErrorView>>,
    pub action: DownloadActionView,
}

impl View for DownloadStep {
    type V = DownloadStepView;

    open spec fn view(&self) -> DownloadStepView {
        DownloadStepView {
            item: match self.item {
                None => None,
                Some(Ok(event)) => Some(Ok(event@)),
                Some(Err(e)) => Some(Err(e@)),
            },
            action: self.action@,
        }
    }
}

/// A download as the contracts see it.
pub struct DownloadModel {
    /// The name shown in progress messages.
    pub name: Seq<char>,
    pub url: Seq<char>,
    pub path: Seq<char>,
    /// The hash that the file must have, as hexadecimal text.
    pub expected_hash: Option<Seq<char>>,
    pub phase: Phase,
    /// The length that the response declared; zero if it declared none.
    pub total: u64,
    /// The bytes written so far, counted up to `total` and no further.
    pub transferred: u64,
    /// The length of the chunk that is being written.
    pub pending: usize,
    /// All bytes of the body that have arrived.
    pub received: Seq<u8>,
}

/// The status text of every progress event of a download.
pub open spec fn download_message(name: Seq<char>) -> Seq<char> {
    "Downloading "@ + name
}

/// What the comparison of a file's digest with the expected hash gives.
pub open spec fn hash_verdict(expected: Option<Seq<char>>, digest: Seq<u8>) -> Result<
    (),
    DownloadErrorView,
> {
    match expected {
        None => Ok(()),
        Some(text) => match hex_decoding(encode_utf8(text)) {
            Err(e) => Err(DownloadErrorView::InvalidHash(e)),
            Ok(bytes) => if bytes == digest {
                Ok(())
            } else {
                Err(DownloadErrorView::HashMismatch(hex_encoding(bytes), hex_encoding(digest)))
            },
        },
    }
}

impl DownloadModel {
    /// A download that has not begun.
    pub open spec fn initial(
        name: Seq<char>,
        url: Seq<char>,
        path: Seq<char>,
        expected_hash: Option<Seq<char>>,
    ) -> DownloadModel {
        DownloadModel {
            name,
            url,
            path,
            expected_hash,
            phase: Phase::Idle,
            total: 0,
            transferred: 0,
            pending: 0,
            received: Seq::empty(),
        }
    }

    /// The download has not begun.
    pub open spec fn is_initial(self) -> bool {
        self == DownloadModel::initial(self.name, self.url, self.path, self.expected_hash)
    }

    /// The operation has ended, one way or the other.
    pub open spec fn ended(self) -> bool {
        self.phase == Phase::Succeeded || self.phase == Phase::Failed
    }

    /// The download after an input that its phase has no use for.
    pub open spec fn passed_over(self) -> (DownloadModel, DownloadStepView) {
        (
            self,
            DownloadStepView {
                item: None,
                action: if self.ended() {
                    DownloadActionView::Stop
                } else {
                    DownloadActionView::KeepWaiting
                },
            },
        )
    }

    /// The download after a failure, and the step that reports it.
    pub open spec fn failed_with(self, e: DownloadErrorView) -> (DownloadModel, DownloadStepView) {
        (
            DownloadModel { phase: Phase::Failed, ..self },
            DownloadStepView { item: Some(Err(e)), action: DownloadActionView::Stop },
        )
    }

    /// The progress event of this download at the ratio `ratio`.
    pub open spec fn progress(self, ratio: Ratio) -> ProgressView {
        ProgressView { ratio, message: download_message(self.name) }
    }

    /// The download after `input`, and its answer.
    pub open spec fn step(self, input: DownloadInputView) -> (DownloadModel, DownloadStepView) {
        match (self.phase, input) {
            (Phase::Idle, DownloadInputView::Begin) => (
                DownloadModel { phase: Phase::Requesting, ..self },
                DownloadStepView {
                    item: Some(Ok(self.progress(Ratio { num: 0, den: 1 }))),
                    action: DownloadActionView::SendRequest,
                },
            ),
            (Phase::Requesting, DownloadInputView::ResponseReceived { content_length }) => (
                DownloadModel {
                    phase: Phase::Creating,
                    total: match content_length {
                        Some(n) => n,
                        None => 0,
                    },
                    ..self
                },
                DownloadStepView { item: None, action: DownloadActionView::CreateFile },
            ),
            (Phase::Requesting, DownloadInputView::RequestFailed(text)) => self.failed_with(
                DownloadErrorView::RequestError(text),
            ),
            (Phase::Creating, DownloadInputView::FileCreated) => (
                DownloadModel { phase: Phase::Reading, ..self },
                DownloadStepView { item: None, action: DownloadActionView::ReadChunk },
            ),
            (Phase::Creating, DownloadInputView::IoFailed(text)) => self.failed_with(
                DownloadErrorView::IoError(text),
            ),
            (Phase::Reading, DownloadInputView::ChunkReceived(bytes)) => (
                DownloadModel {
                    phase: Phase::Writing,
                    pending: bytes.len() as usize,
                    received: self.received + bytes,
                    ..self
                },
                DownloadStepView { item: None, action: DownloadActionView::WriteChunk(bytes) },
            ),
            (Phase::Reading, DownloadInputView::RequestFailed(text)) => self.failed_with(
                DownloadErrorView::RequestError(text),
            ),
            (Phase::Reading, DownloadInputView::BodyEnded) => match hash_verdict(
                self.expected_hash,
                sha256(self.received),
            ) {
                Ok(_) => (
                    DownloadModel { phase: Phase::Succeeded, ..self },
                    DownloadStepView { item: None, action: DownloadActionView::Stop },
                ),
                Err(e) => self.failed_with(e),
            },
            (Phase::Writing, DownloadInputView::ChunkWritten) => {
                let ratio = Ratio::spec_of(self.transferred + self.pending, self.total as int);
                (
                    DownloadModel { phase: Phase::Reading, transferred: ratio.num, ..self },
                    DownloadStepView {
                        item: Some(Ok(self.progress(ratio))),
                        action: DownloadActionView::ReadChunk,
                    },
                )
            },
            (Phase::Writing, DownloadInputView::IoFailed(text)) => self.failed_with(
                DownloadErrorView::IoError(text),
            ),
            _ => self.passed_over(),
        }
    }
}

/// Whether two byte strings are the same.
pub fn same_bytes(a: &[u8], b: &[u8]) -> (same: bool)
    ensures
        same == (a@ == b@),
{
    if a.len() != b.len() {
        return false;
    }
    let mut i: usize = 0;
    while i < a.len()
        invariant
            a.len() == b.len(),
            i <= a.len(),
            forall|j: int| 0 <= j < i ==> a[j] == b[j],
        decreases a.len() - i,
    {
        if a[i] != b[i] {
            return false;
        }
        i += 1;
    }
    assert(a@ =~= b@);
    true
}

/// Compares the digest of a downloaded file with the hash that was expected
/// of it.
///
/// The expected hash is decoded from hexadecimal text first. If it cannot be
/// decoded the result is `InvalidHash`; if it decodes to other bytes than
/// `digest` the result is `HashMismatch`, with both in hexadecimal text.
pub fn check_digest(expected: &str, digest: &[u8]) -> (verdict: Result<(), DownloadError>)
    ensures
        match verdict {
            Ok(_) => hash_verdict(Some(expected@), digest@) is Ok,
            Err(e) => hash_verdict(Some(expected@), digest@) == Err::<(), DownloadErrorView>(e@),
        },
        verdict matches Err(DownloadError::HashMismatch(_, actual)) ==> actual@.len() == 2
            * digest@.len(),
{
    match decode_hex(expected.as_bytes()) {
        Err(e) => Err(DownloadError::InvalidHash(e)),
        Ok(bytes) => {
            if same_bytes(bytes.as_slice(), digest) {
                Ok(())
            } else {
                Err(DownloadError::HashMismatch(encode_hex(bytes.as_slice()), encode_hex(digest)))
            }
        },
    }
}

/// A download in progress.
pub struct Download {
    name: String,
    url: String,
    path: String,
    expected_hash: Option<String>,
    phase: Phase,
    total: u64,
    transferred: u64,
    pending: usize,
    hasher: Sha256Stream,
}

impl View for Download {
    type V = DownloadModel;

    closed spec fn view(&self) -> DownloadModel {
        DownloadModel {
            name: self.name@,
            url: self.url@,
            path: self.path@,
            expected_hash: match self.expected_hash {
                Some(text) => Some(text@),
                None => None,
            },
            phase: self.phase,
            total: self.total,
            transferred: self.transferred,
            pending: self.pending,
            received: hasher_input(self.hasher),
        }
    }
}

/// Prepares the download of `url` to the file `path`, shown as `display_name`
/// in progress messages. With an `expected_hash`, the hexadecimal text of a
/// SHA-256 digest, the file's digest is compared with it once the whole body has
/// been written.
///
/// Nothing has happened yet: the download is idle until its driver reports
/// `DownloadInput::Begin`.
pub fn download(display_name: &str, url: &str, path: &str, expected_hash: Option<String>) -> (d:
    Download)
    ensures
        d@ == DownloadModel::initial(
            display_name@,
            url@,
            path@,
            match expected_hash {
                Some(text) => Some(text@),
                None => None,
            },
        ),
{
    Download {
        name: String::from_str(display_name),
        url: String::from_str(url),
        path: String::from_str(path),
        expected_hash,
        phase: Phase::Idle,
        total: 0,
        transferred: 0,
        pending: 0,
        hasher: new_hasher(),
    }
}

impl Download {
    /// The URL to request.
    pub fn url(&self) -> (url: &String)
        ensures
            url@ == self@.url,
    {
        &self.url
    }

    /// The path of the destination file.
    pub fn path(&self) -> (path: &String)
        ensures
            path@ == self@.path,
    {
        &self.path
    }

    /// Where the download stands.
    pub fn phase(&self) -> (phase: Phase)
        ensures
            phase == self@.phase,
    {
        self.phase
    }

    fn progress_event(&self, ratio: Ratio) -> (event: ProgressEvent)
        ensures
            event@ == self@.progress(ratio),
    {
        let mut message = String::from_str("Downloading ");
        message.append(self.name.as_str());
        ProgressEvent { ratio, message }
    }

    fn pass_over(&self) -> (out: DownloadStep)
        ensures
            (self@, out@) == self@.passed_over(),
    {
        let ended = match self.phase {
            Phase::Succeeded => true,
            Phase::Failed => true,
            _ => false,
        };
        DownloadStep {
            item: None,
            action: if ended {
                DownloadAction::Stop
            } else {
                DownloadAction::KeepWaiting
            },
        }
    }

    fn fail_with(&mut self, e: DownloadError) -> (out: DownloadStep)
        ensures
            (final(self)@, out@) == old(self)@.failed_with(e@),
    {
        self.phase = Phase::Failed;
        DownloadStep { item: Some(Err(e)), action: DownloadAction::Stop }
    }

    /// Takes one report of the driver and answers with the item to deliver, if
    /// any, and the next thing to do.
    ///
    /// An input that the current phase has no use for changes nothing. Once the
    /// download has succeeded or failed, every answer is `Stop` with no item.
    ///
    /// Where the body has ended and a hash was expected, the file's digest was
    /// computed and has the 32 bytes of a SHA-256 digest, so the second text of
    /// a `HashMismatch` has 64 characters.
    pub fn step(&mut self, input: DownloadInput) -> (out: DownloadStep)
        ensures
            (final(self)@, out@) == old(self)@.step(input@),
            old(self)@.phase == Phase::Reading && input@ == DownloadInputView::BodyEnded
                && old(self)@.expected_hash is Some ==> sha256(old(self)@.received).len() == 32,
            out@.item matches Some(Err(DownloadErrorView::HashMismatch(expected, actual)))
                ==> actual.len() == 64 && actual == hex_encoding(sha256(old(self)@.received)),
    {
        match (self.phase, input) {
            (Phase::Idle, DownloadInput::Begin) => {
                self.phase = Phase::Requesting;
                let event = self.progress_event(Ratio::zero());
                DownloadStep { item: Some(Ok(event)), action: DownloadAction::SendRequest }
            },
            (Phase::Requesting, DownloadInput::ResponseReceived { content_length }) => {
                self.phase = Phase::Creating;
                self.total = match content_length {
                    Some(n) => n,
                    None => 0,
                };
                DownloadStep { item: None, action: DownloadAction::CreateFile }
            },
            (Phase::Requesting, DownloadInput::RequestFailed(text)) => self.fail_with(
                DownloadError::RequestError(text),
            ),
            (Phase::Creating, DownloadInput::FileCreated) => {
                self.phase = Phase::Reading;
                DownloadStep { item: None, action: DownloadAction::ReadChunk }
            },
            (Phase::Creating, DownloadInput::IoFailed(text)) => self.fail_with(
                DownloadError::IoError(text),
            ),
            (Phase::Reading, DownloadInput::ChunkReceived(bytes)) => {
                feed_hasher(&mut self.hasher, bytes.as_slice());
                self.phase = Phase::Writing;
                self.pending = bytes.len();
                DownloadStep { item: None, action: DownloadAction::WriteChunk(bytes) }
            },
            (Phase::Reading, DownloadInput::RequestFailed(text)) => self.fail_with(
                DownloadError::RequestError(text),
            ),
            (Phase::Reading, DownloadInput::BodyEnded) => {
                let verdict = match &self.expected_hash {
                    None => Ok(()),
                    Some(expected) => {
                        let digest = current_digest(&self.hasher);
                        check_digest(expected.as_str(), digest.as_slice())
                    },
                };
                match verdict {
                    Ok(_) => {
                        self.phase = Phase::Succeeded;
                        DownloadStep { item: None, action: DownloadAction::Stop }
                    },
                    Err(e) => self.fail_with(e),
                }
            },
            (Phase::Writing, DownloadInput::ChunkWritten) => {
                let written: u64 = self.transferred.saturating_add(self.pending as u64);
                let ratio = Ratio::of(written, self.total);
                self.phase = Phase::Reading;
                self.transferred = ratio.num;
                let event = self.progress_event(ratio);
                DownloadStep { item: Some(Ok(event)), action: DownloadAction::ReadChunk }
            },
            (Phase::Writing, DownloadInput::IoFailed(text)) => self.fail_with(
                DownloadError::IoError(text),
            ),
            _ => self.pass_over(),
        }
    }
}

} // verus!
