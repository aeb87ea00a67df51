//! The capture orchestrator.
//!
//! A capture takes the image on the clipboard, stores it as the next numbered
//! file of the image store, evicts the oldest images beyond the store's bound
//! and puts the new file's path on the clipboard as text. The clipboard and
//! the file system are the caller's: the orchestrator decides what is to be
//! done next, as an `Action`, and is told what came of it, as an `Event`.
//!
//! One request is in flight at a time. A request made while another is in
//! flight waits its turn and is started by `resume` once the one before it
//! has finished. Nothing is retried: the first failure ends the request and
//! is reported with the stage it happened in.

use vstd::prelude::*;
use crate::bitmap::{is_pixel_buffer, Bitmap, BitmapView};
use crate::codec::lossless_encoding;
use crate::image_manager::{
    evicted,
    listing,
    next_image_number,
    paths_of,
    texts,
    DirectoryScan,
    ImageManager,
    ImageManagerView,
    SaveError,
    ScannedEntryView,
};
use crate::naming::image_name;
use crate::path_resolver::{resolve, resolved, PathTranslation};

verus! {

/// Where a request stands.
#[derive(Debug, Clone, Copy, PartialEq, Eq, Structural)]
pub enum CaptureState {
    /// No request is in flight.
    Idle,
    /// The clipboard is being read for an image.
    ReadingClipboard,
    /// The image is being stored and the store brought within its bound.
    Persisting,
    /// The path is being put on the clipboard.
    WritingResult,
}

/// The stage of a request in which it failed.
#[derive(Debug, Clone, Copy, PartialEq, Eq, Structural)]
pub enum Stage {
    ReadingClipboard,
    Persisting,
    WritingResult,
}

/// The kind of a failure.
#[derive(Debug, Clone, Copy, PartialEq, Eq, Structural)]
pub enum ErrorKind {
    /// The clipboard could not be read or written.
    ClipboardUnavailable,
    /// What the clipboard holds is not a valid pixel buffer.
    DecodeError,
    /// The store's directory or one of its files could not be read, written
    /// or deleted, or nothing could be prepared to write.
    PersistenceError,
}

/// What the user asks for.
#[derive(Debug, Clone, PartialEq, Eq)]
pub enum Request {
    /// Store the image on the clipboard and put its path there instead.
    Capture,
    /// Put the path of an image already stored on the clipboard.
    CopyExisting { path: String },
}

/// How a request ended.
#[derive(Debug, Clone, PartialEq, Eq)]
pub enum Outcome {
    /// The image was stored at `path`, and `text` was put on the clipboard.
    Saved { path: String, text: String },
    /// `text` was put on the clipboard.
    Copied { text: String },
    /// The clipboard holds no image. Nothing was written anywhere.
    NoImagePresent,
    /// The request failed in `stage`.
    Failed { stage: Stage, kind: ErrorKind, message: String },
}

/// Work for the caller to do. Each action but `Finish` is answered by one
/// event.
#[derive(Debug, Clone, PartialEq, Eq)]
pub enum Action {
    /// Read the image on the clipboard. Answered by `ClipboardImage`,
    /// `ClipboardEmpty` or `Failed`.
    ReadClipboardImage,
    /// List the entries of `directory`, without descending. Answered by
    /// `DirectoryScanned`.
    ScanDirectory { directory: String },
    /// Create `directory` and the directories above it. Answered by
    /// `DirectoryCreated` or `Failed`.
    CreateDirectory { directory: String },
    /// Write `contents` to the new file `file_name` in `directory`, leaving
    /// no file behind on failure. Answered by `FileWritten` or `Failed`.
    WriteFile { directory: String, file_name: String, contents: Vec<u8> },
    /// Delete the file at `path`. Answered by `FileRemoved` or `Failed`.
    RemoveFile { path: String },
    /// Find the canonical absolute form of `path`. Answered by
    /// `Canonicalized` or `Failed`.
    Canonicalize { path: String },
    /// Replace the text on the clipboard by `text`. Answered by `TextWritten`
    /// or `Failed`.
    WriteClipboardText { text: String },
    /// The request is over: report `outcome`.
    Finish { outcome: Outcome },
}

/// What came of an action.
#[derive(Debug, Clone, PartialEq, Eq)]
pub enum Event {
    /// The clipboard holds an image of `width` by `height` pixels.
    ClipboardImage { width: usize, height: usize, bytes: Vec<u8> },
    /// The clipboard is empty or holds something other than an image.
    ClipboardEmpty,
    /// The directory was scanned.
    DirectoryScanned { scan: DirectoryScan },
    /// The directory was created.
    DirectoryCreated,
    /// The file was written; `path` is where.
    FileWritten { path: String },
    /// The file was deleted.
    FileRemoved,
    /// `path` is the canonical form asked for.
    Canonicalized { path: String },
    /// The text is on the clipboard.
    TextWritten,
    /// The action failed; `message` says why.
    Failed { message: String },
}

/// A `Request` as contracts speak of it.
pub enum RequestView {
    Capture,
    CopyExisting { path: Seq<char> },
}

/// An `Outcome` as contracts speak of it.
pub enum OutcomeView {
    Saved { path: Seq<char>, text: Seq<char> },
    Copied { text: Seq<char> },
    NoImagePresent,
    Failed { stage: Stage, kind: ErrorKind, message: Seq<char> },
}

/// An `Action` as contracts speak of it.
pub enum ActionView {
    ReadClipboardImage,
    ScanDirectory { directory: Seq<char> },
    CreateDirectory { directory: Seq<char> },
    WriteFile { directory: Seq<char>, file_name: Seq<char>, contents: Seq<u8> },
    RemoveFile { path: Seq<char> },
    Canonicalize { path: Seq<char> },
    WriteClipboardText { text: Seq<char> },
    Finish { outcome: OutcomeView },
}

/// An `Event` as contracts speak of it.
pub enum EventView {
    ClipboardImage { width: nat, height: nat, bytes: Seq<u8> },
    ClipboardEmpty,
    DirectoryScanned { missing: bool, entries: Seq<ScannedEntryView> },
    DirectoryCreated,
    FileWritten { path: Seq<char> },
    FileRemoved,
    Canonicalized { path: Seq<char> },
    TextWritten,
    Failed { message: Seq<char> },
}

impl View for Request {
    type V = RequestView;

    open spec fn view(&self) -> RequestView {
        match *self {
            Request::Capture => RequestView::Capture,
            Request::CopyExisting { path } => RequestView::CopyExisting { path: path@ },
        }
    }
}

impl View for Outcome {
    type V = OutcomeView;

    open spec fn view(&self) -> OutcomeView {
        match *self {
            Outcome::Saved { path, text } => OutcomeView::Saved { path: path@, text: text@ },
            Outcome::Copied { text } => OutcomeView::Copied { text: text@ },
            Outcome::NoImagePresent => OutcomeView::NoImagePresent,
            Outcome::Failed { stage, kind, message } => OutcomeView::Failed {
                stage,
                kind,
                message: message@,
            },
        }
    }
}

impl View for Action {
    type V = ActionView;

    open spec fn view(&self) -> ActionView {
        match *self {
            Action::ReadClipboardImage => ActionView::ReadClipboardImage,
            Action::ScanDirectory { directory } => ActionView::ScanDirectory {
                directory: directory@,
            },
            Action::CreateDirectory { directory } => ActionView::CreateDirectory {
                directory: directory@,
            },
            Action::WriteFile { directory, file_name, contents } => ActionView::WriteFile {
                directory: directory@,
                file_name: file_name@,
                contents: contents@,
            },
            Action::RemoveFile { path } => ActionView::RemoveFile { path: path@ },
            Action::Canonicalize { path } => ActionView::Canonicalize { path: path@ },
            Action::WriteClipboardText { text } => ActionView::WriteClipboardText { text: text@ },
            Action::Finish { outcome } => ActionView::Finish { outcome: outcome@ },
        }
    }
}

impl View for Event {
    type V = EventView;

    open spec fn view(&self) -> EventView {
        match *self {
            Event::ClipboardImage { width, height, bytes } => EventView::ClipboardImage {
                width: width as nat,
                height: height as nat,
                bytes: bytes@,
            },
            Event::ClipboardEmpty => EventView::ClipboardEmpty,
            Event::DirectoryScanned { scan } => EventView::DirectoryScanned {
                missing: scan is Missing,
                entries: scan.entries(),
            },
            Event::DirectoryCreated => EventView::DirectoryCreated,
            Event::FileWritten { path } => EventView::FileWritten { path: path@ },
            Event::FileRemoved => EventView::FileRemoved,
            Event::Canonicalized { path } => EventView::Canonicalized { path: path@ },
            Event::TextWritten => EventView::TextWritten,
            Event::Failed { message } => EventView::Failed { message: message@ },
        }
    }
}

/// The view of an action that may be absent.
pub open spec fn action_view(action: Option<Action>) -> Option<ActionView> {
    match action {
        Some(a) => Some(a@),
        None => None,
    }
}

/// What the orchestrator is waiting for, and what it has to remember
/// meanwhile.
pub enum PhaseView {
    /// No request is in flight.
    Idle,
    /// The clipboard is being read.
    ReadingClipboard,
    /// The directory is being scanned for the number of the next image.
    Scanning { image: BitmapView },
    /// The directory was found missing and is being created.
    CreatingDirectory { image: BitmapView },
    /// The image's file is being written.
    Writing,
    /// The file is written at `written`; the directory is being scanned for
    /// the images that have to go.
    Rescanning { written: Seq<char> },
    /// An image is being deleted; those in `doomed` are to follow, the first
    /// first.
    Evicting { written: Seq<char>, doomed: Seq<Seq<char>> },
    /// The canonical form of the new file's path is being found.
    Canonicalizing,
    /// `text` is being put on the clipboard; `saved` is the path of the file
    /// stored by this request, if it stored one.
    WritingResult { saved: Option<Seq<char>>, text: Seq<char> },
}

impl PhaseView {
    /// The state as it shows to the outside.
    pub open spec fn state(self) -> CaptureState {
        match self {
            PhaseView::Idle => CaptureState::Idle,
            PhaseView::ReadingClipboard => CaptureState::ReadingClipboard,
            PhaseView::WritingResult { .. } => CaptureState::WritingResult,
            _ => CaptureState::Persisting,
        }
    }
}

/// The message of the failure to take the clipboard's image as a bitmap.
pub open spec fn malformed_image_message() -> Seq<char> {
    "the clipboard image is not a valid RGBA pixel buffer"@
}

/// The message of the failure to number a new image.
pub open spec fn numbers_exhausted_message() -> Seq<char> {
    "no sequence number is left for a new image"@
}

/// The message of the failure to encode an image.
pub open spec fn encoding_failed_message() -> Seq<char> {
    "the image could not be encoded without loss"@
}

/// The end of a request that failed in `stage`.
pub open spec fn failure(stage: Stage, kind: ErrorKind, message: Seq<char>) -> (
    PhaseView,
    ActionView,
) {
    (
        PhaseView::Idle,
        ActionView::Finish { outcome: OutcomeView::Failed { stage, kind, message } },
    )
}

/// The first step of a request.
pub open spec fn started(translation: PathTranslation, request: RequestView) -> (
    PhaseView,
    ActionView,
) {
    match request {
        RequestView::Capture => (PhaseView::ReadingClipboard, ActionView::ReadClipboardImage),
        RequestView::CopyExisting { path } => {
            let text = resolved(path, translation);
            (
                PhaseView::WritingResult { saved: None, text },
                ActionView::WriteClipboardText { text },
            )
        },
    }
}

/// The step that follows a scan of a directory that exists: the image is
/// written under the next number, unless no number is left or the image
/// cannot be encoded.
pub open spec fn write_planned(
    store: ImageManagerView,
    image: BitmapView,
    entries: Seq<ScannedEntryView>,
) -> (PhaseView, ActionView) {
    match next_image_number(entries) {
        Some(number) => match lossless_encoding(image) {
            Some(contents) => (
                PhaseView::Writing,
                ActionView::WriteFile {
                    directory: store.save_directory,
                    file_name: image_name(number as nat),
                    contents,
                },
            ),
            None => failure(
                Stage::Persisting,
                ErrorKind::PersistenceError,
                encoding_failed_message(),
            ),
        },
        None => failure(
            Stage::Persisting,
            ErrorKind::PersistenceError,
            numbers_exhausted_message(),
        ),
    }
}

/// The step that follows when the images in `doomed` are still to be
/// deleted: the first of them is deleted, or, where none is left, the new
/// file's path is canonicalized.
pub open spec fn eviction_continued(written: Seq<char>, doomed: Seq<Seq<char>>) -> (
    PhaseView,
    ActionView,
) {
    if doomed.len() > 0 {
        (
            PhaseView::Evicting { written, doomed: doomed.drop_first() },
            ActionView::RemoveFile { path: doomed[0] },
        )
    } else {
        (PhaseView::Canonicalizing, ActionView::Canonicalize { path: written })
    }
}

/// The orchestrator's transitions: the phase and the action that follow when
/// `event` arrives in `phase`, and `None` where the event does not answer
/// what the phase is waiting for.
pub open spec fn step(
    store: ImageManagerView,
    translation: PathTranslation,
    phase: PhaseView,
    event: EventView,
) -> Option<(PhaseView, ActionView)> {
    match phase {
        PhaseView::Idle => None,
        PhaseView::ReadingClipboard => match event {
            EventView::ClipboardImage { width, height, bytes } => if width <= u32::MAX && height
                <= u32::MAX && is_pixel_buffer(bytes, width, height) {
                Some(
                    (
                        PhaseView::Scanning { image: BitmapView { width, height, pixels: bytes } },
                        ActionView::ScanDirectory { directory: store.save_directory },
                    ),
                )
            } else {
                Some(
                    failure(
                        Stage::ReadingClipboard,
                        ErrorKind::DecodeError,
                        malformed_image_message(),
                    ),
                )
            },
            EventView::ClipboardEmpty => Some(
                (PhaseView::Idle, ActionView::Finish { outcome: OutcomeView::NoImagePresent }),
            ),
            EventView::Failed { message } => Some(
                failure(Stage::ReadingClipboard, ErrorKind::ClipboardUnavailable, message),
            ),
            _ => None,
        },
        PhaseView::Scanning { image } => match event {
            EventView::DirectoryScanned { missing, entries } => if missing {
                Some(
                    (
                        PhaseView::CreatingDirectory { image },
                        ActionView::CreateDirectory { directory: store.save_directory },
                    ),
                )
            } else {
                Some(write_planned(store, image, entries))
            },
            EventView::Failed { message } => Some(
                failure(Stage::Persisting, ErrorKind::PersistenceError, message),
            ),
            _ => None,
        },
        PhaseView::CreatingDirectory { image } => match event {
            EventView::DirectoryCreated => Some(write_planned(store, image, Seq::empty())),
            EventView::Failed { message } => Some(
                failure(Stage::Persisting, ErrorKind::PersistenceError, message),
            ),
            _ => None,
        },
        PhaseView::Writing => match event {
            EventView::FileWritten { path } => Some(
                (
                    PhaseView::Rescanning { written: path },
                    ActionView::ScanDirectory { directory: store.save_directory },
                ),
            ),
            EventView::Failed { message } => Some(
                failure(Stage::Persisting, ErrorKind::PersistenceError, message),
            ),
            _ => None,
        },
        PhaseView::Rescanning { written } => match event {
            EventView::DirectoryScanned { missing, entries } => Some(
                eviction_continued(
                    written,
                    evicted(paths_of(listing(entries)), store.max_images),
                ),
            ),
            EventView::Failed { message } => Some(
                failure(Stage::Persisting, ErrorKind::PersistenceError, message),
            ),
            _ => None,
        },
        PhaseView::Evicting { written, doomed } => match event {
            EventView::FileRemoved => Some(eviction_continued(written, doomed)),
            EventView::Failed { message } => Some(
                failure(Stage::Persisting, ErrorKind::PersistenceError, message),
            ),
            _ => None,
        },
        PhaseView::Canonicalizing => match event {
            EventView::Canonicalized { path } => {
                let text = resolved(path, translation);
                Some(
                    (
                        PhaseView::WritingResult { saved: Some(path), text },
                        ActionView::WriteClipboardText { text },
                    ),
                )
            },
            EventView::Failed { message } => Some(
                failure(Stage::Persisting, ErrorKind::PersistenceError, message),
            ),
            _ => None,
        },
        PhaseView::WritingResult { saved, text } => match event {
            EventView::TextWritten => Some(
                (
                    PhaseView::Idle,
                    ActionView::Finish {
                        outcome: match saved {
                            Some(path) => OutcomeView::Saved { path, text },
                            None => OutcomeView::Copied { text },
                        },
                    },
                ),
            ),
            EventView::Failed { message } => Some(
                failure(Stage::WritingResult, ErrorKind::ClipboardUnavailable, message),
            ),
            _ => None,
        },
    }
}

/// The orchestrator's phase, with what it has to remember.
#[derive(Debug)]
enum Phase {
    Idle,
    ReadingClipboard,
    Scanning { image: Bitmap },
    CreatingDirectory { image: Bitmap },
    Writing,
    Rescanning { written: String },
    Evicting { written: String, doomed: Vec<String> },
    Canonicalizing,
    WritingResult { saved: Option<String>, text: String },
}

impl View for Phase {
    type V = PhaseView;

    closed spec fn view(&self) -> PhaseView {
        match *self {
            Phase::Idle => PhaseView::Idle,
            Phase::ReadingClipboard => PhaseView::ReadingClipboard,
            Phase::Scanning { image } => PhaseView::Scanning { image: image@ },
            Phase::CreatingDirectory { image } => PhaseView::CreatingDirectory { image: image@ },
            Phase::Writing => PhaseView::Writing,
            Phase::Rescanning { written } => PhaseView::Rescanning { written: written@ },
            Phase::Evicting { written, doomed } => PhaseView::Evicting {
                written: written@,
                doomed: texts(doomed@),
            },
            Phase::Canonicalizing => PhaseView::Canonicalizing,
            Phase::WritingResult { saved, text } => PhaseView::WritingResult {
                saved: match saved {
                    Some(path) => Some(path@),
                    None => None,
                },
                text: text@,
            },
        }
    }
}

fn fail(stage: Stage, kind: ErrorKind, message: String) -> (end: (Phase, Option<Action>))
    ensures
        end.0@ == failure(stage, kind, message@).0,
        action_view(end.1) == Some(failure(stage, kind, message@).1),
{
    (Phase::Idle, Some(Action::Finish { outcome: Outcome::Failed { stage, kind, message } }))
}

fn start(translation: PathTranslation, request: Request) -> (begun: (Phase, Action))
    ensures
        begun.0@ == started(translation, request@).0,
        begun.1@ == started(translation, request@).1,
{
    match request {
        Request::Capture => (Phase::ReadingClipboard, Action::ReadClipboardImage),
        Request::CopyExisting { path } => {
            let text = resolve(path.as_str(), translation);
            (
                Phase::WritingResult { saved: None, text: text.clone() },
                Action::WriteClipboardText { text },
            )
        },
    }
}

fn plan_write(store: &ImageManager, image: &Bitmap, scan: &DirectoryScan) -> (planned: (
    Phase,
    Option<Action>,
))
    ensures
        planned.0@ == write_planned(store@, image@, scan.entries()).0,
        action_view(planned.1) == Some(write_planned(store@, image@, scan.entries()).1),
{
    match store.save_image(image, scan) {
        Ok(pending) => (
            Phase::Writing,
            Some(
                Action::WriteFile {
                    directory: store.save_directory().clone(),
                    file_name: pending.file_name,
                    contents: pending.contents,
                },
            ),
        ),
        Err(SaveError::NumbersExhausted) => fail(
            Stage::Persisting,
            ErrorKind::PersistenceError,
            "no sequence number is left for a new image".to_owned(),
        ),
        Err(SaveError::Encoding(_)) => fail(
            Stage::Persisting,
            ErrorKind::PersistenceError,
            "the image could not be encoded without loss".to_owned(),
        ),
    }
}

fn continue_eviction(written: String, doomed: Vec<String>) -> (next: (Phase, Option<Action>))
    ensures
        next.0@ == eviction_continued(written@, texts(doomed@)).0,
        action_view(next.1) == Some(eviction_continued(written@, texts(doomed@)).1),
{
    let mut doomed = doomed;
    if doomed.len() > 0 {
        let ghost before = doomed@;
        let path = doomed.remove(0);
        assert(texts(doomed@) =~= texts(before).drop_first());
        (Phase::Evicting { written, doomed }, Some(Action::RemoveFile { path }))
    } else {
        (Phase::Canonicalizing, Some(Action::Canonicalize { path: written }))
    }
}

/// The phase and the action that follow when `event` arrives in `phase`.
fn advance(store: &ImageManager, translation: PathTranslation, phase: Phase, event: Event) -> (next:
    (Phase, Option<Action>))
    ensures
        match step(store@, translation, phase@, event@) {
            Some((p, a)) => next.0@ == p && action_view(next.1) == Some(a),
            None => next.0@ == phase@ && next.1 is None,
        },
{
    match phase {
        Phase::Idle => (Phase::Idle, None),
        Phase::ReadingClipboard => match event {
            Event::ClipboardImage { width, height, bytes } => match Bitmap::from_clipboard(
                width,
                height,
                bytes,
            ) {
                Ok(image) => (
                    Phase::Scanning { image },
                    Some(Action::ScanDirectory { directory: store.save_directory().clone() }),
                ),
                Err(_) => fail(
                    Stage::ReadingClipboard,
                    ErrorKind::DecodeError,
                    "the clipboard image is not a valid RGBA pixel buffer".to_owned(),
                ),
            },
            Event::ClipboardEmpty => (
                Phase::Idle,
                Some(Action::Finish { outcome: Outcome::NoImagePresent }),
            ),
            Event::Failed { message } => fail(
                Stage::ReadingClipboard,
                ErrorKind::ClipboardUnavailable,
                message,
            ),
            _ => (Phase::ReadingClipboard, None),
        },
        Phase::Scanning { image } => match event {
            Event::DirectoryScanned { scan } => match scan {
                DirectoryScan::Missing => (
                    Phase::CreatingDirectory { image },
                    Some(Action::CreateDirectory { directory: store.save_directory().clone() }),
                ),
                DirectoryScan::Found(_) => plan_write(store, &image, &scan),
            },
            Event::Failed { message } => fail(
                Stage::Persisting,
                ErrorKind::PersistenceError,
                message,
            ),
            _ => (Phase::Scanning { image }, None),
        },
        Phase::CreatingDirectory { image } => match event {
            Event::DirectoryCreated => {
                let empty = DirectoryScan::Found(Vec::new());
                assert(empty.entries() =~= Seq::empty());
                plan_write(store, &image, &empty)
            },
            Event::Failed { message } => fail(
                Stage::Persisting,
                ErrorKind::PersistenceError,
                message,
            ),
            _ => (Phase::CreatingDirectory { image }, None),
        },
        Phase::Writing => match event {
            Event::FileWritten { path } => (
                Phase::Rescanning { written: path },
                Some(Action::ScanDirectory { directory: store.save_directory().clone() }),
            ),
            Event::Failed { message } => fail(
                Stage::Persisting,
                ErrorKind::PersistenceError,
                message,
            ),
            _ => (Phase::Writing, None),
        },
        Phase::Rescanning { written } => match event {
            Event::DirectoryScanned { scan } => {
                let doomed = store.cleanup_old_images(&scan);
                continue_eviction(written, doomed)
            },
            Event::Failed { message } => fail(
                Stage::Persisting,
                ErrorKind::PersistenceError,
                message,
            ),
            _ => (Phase::Rescanning { written }, None),
        },
        Phase::Evicting { written, doomed } => match event {
            Event::FileRemoved => continue_eviction(written, doomed),
            Event::Failed { message } => fail(
                Stage::Persisting,
                ErrorKind::PersistenceError,
                message,
            ),
            _ => (Phase::Evicting { written, doomed }, None),
        },
        Phase::Canonicalizing => match event {
            Event::Canonicalized { path } => {
                let text = resolve(path.as_str(), translation);
                (
                    Phase::WritingResult { saved: Some(path), text: text.clone() },
                    Some(Action::WriteClipboardText { text }),
                )
            },
            Event::Failed { message } => fail(
                Stage::Persisting,
                ErrorKind::PersistenceError,
                message,
            ),
            _ => (Phase::Canonicalizing, None),
        },
        Phase::WritingResult { saved, text } => match event {
            Event::TextWritten => (
                Phase::Idle,
                Some(
                    Action::Finish {
                        outcome: match saved {
                            Some(path) => Outcome::Saved { path, text },
                            None => Outcome::Copied { text },
                        },
                    },
                ),
            ),
            Event::Failed { message } => fail(
                Stage::WritingResult,
                ErrorKind::ClipboardUnavailable,
                message,
            ),
            _ => (Phase::WritingResult { saved, text }, None),
        },
    }
}

/// The views of a sequence of requests.
pub open spec fn request_views(requests: Seq<Request>) -> Seq<RequestView> {
    requests.map_values(|r: Request| r@)
}

/// A `CaptureOrchestrator` as contracts speak of it.
pub struct OrchestratorView {
    /// The store's settings.
    pub store: ImageManagerView,
    /// How saved paths are rewritten.
    pub translation: PathTranslation,
    /// What the request in flight is waiting for.
    pub phase: PhaseView,
    /// The requests that wait for their turn, the next one first.
    pub waiting: Seq<RequestView>,
}

impl OrchestratorView {
    /// What a new request leads to: it is started where no request is in
    /// flight and none waits; otherwise it waits behind those that wait
    /// already, and nothing is done for it yet.
    pub open spec fn submitted(self, request: RequestView) -> (
        OrchestratorView,
        Option<ActionView>,
    ) {
        if self.phase is Idle && self.waiting.len() == 0 {
            let begun = started(self.translation, request);
            (OrchestratorView { phase: begun.0, ..self }, Some(begun.1))
        } else {
            (OrchestratorView { waiting: self.waiting.push(request), ..self }, None)
        }
    }

    /// What an event leads to: the step of the request in flight, or nothing
    /// where the event answers nothing that is waited for.
    pub open spec fn handled(self, event: EventView) -> (OrchestratorView, Option<ActionView>) {
        match step(self.store, self.translation, self.phase, event) {
            Some((phase, action)) => (OrchestratorView { phase, ..self }, Some(action)),
            None => (self, None),
        }
    }

    /// What resuming leads to: where no request is in flight and one waits,
    /// the one that has waited longest is started.
    pub open spec fn resumed(self) -> (OrchestratorView, Option<ActionView>) {
        if self.phase is Idle && self.waiting.len() > 0 {
            let begun = started(self.translation, self.waiting[0]);
            (
                OrchestratorView { phase: begun.0, waiting: self.waiting.drop_first(), ..self },
                Some(begun.1),
            )
        } else {
            (self, None)
        }
    }

    /// The orchestrator after `events` have arrived one after the other.
    pub open spec fn after(self, events: Seq<EventView>) -> OrchestratorView
        decreases events.len(),
    {
        if events.len() == 0 {
            self
        } else {
            self.after(events.drop_last()).handled(events.last()).0
        }
    }
}

/// The stage that a state of a request stands for.
pub open spec fn stage_of(state: CaptureState) -> Stage {
    match state {
        CaptureState::ReadingClipboard => Stage::ReadingClipboard,
        CaptureState::WritingResult => Stage::WritingResult,
        _ => Stage::Persisting,
    }
}

/// The kind of failure that an action failing in `stage` is: the clipboard's
/// where the clipboard was read or written, the store's otherwise.
pub open spec fn failure_kind(stage: Stage) -> ErrorKind {
    match stage {
        Stage::Persisting => ErrorKind::PersistenceError,
        _ => ErrorKind::ClipboardUnavailable,
    }
}

/// The place of a state in the course of a request.
pub open spec fn progress(state: CaptureState) -> nat {
    match state {
        CaptureState::Idle => 0,
        CaptureState::ReadingClipboard => 1,
        CaptureState::Persisting => 2,
        CaptureState::WritingResult => 3,
    }
}

/// A capture that finds no image on the clipboard reads the clipboard and
/// reports that there is no image, and that is all: no directory is created
/// or scanned, no file written or deleted, no text put on the clipboard, and
/// the orchestrator is left as it was.
pub proof fn lemma_no_image_writes_nothing(orchestrator: OrchestratorView)
    requires
        orchestrator.phase is Idle,
        orchestrator.waiting.len() == 0,
    ensures
        ({
            let asked = orchestrator.submitted(RequestView::Capture);
            let told = asked.0.handled(EventView::ClipboardEmpty);
            &&& asked.1 == Some(ActionView::ReadClipboardImage)
            &&& told.1 == Some(ActionView::Finish { outcome: OutcomeView::NoImagePresent })
            &&& told.0 == orchestrator
        }),
{
}

/// The failure of an action ends the request in flight: it is reported with
/// the stage the request was in and the message of the failure, nothing is
/// tried again, and the orchestrator is idle afterwards.
pub proof fn lemma_failure_ends_request(orchestrator: OrchestratorView, message: Seq<char>)
    requires
        !(orchestrator.phase is Idle),
    ensures
        ({
            let stage = stage_of(orchestrator.phase.state());
            let told = orchestrator.handled(EventView::Failed { message });
            &&& told.0 == OrchestratorView { phase: PhaseView::Idle, ..orchestrator }
            &&& told.1 == Some(
                ActionView::Finish {
                    outcome: OutcomeView::Failed { stage, kind: failure_kind(stage), message },
                },
            )
        }),
{
}

/// A request only moves forward, from reading the clipboard over storing to
/// writing the result, and it is over exactly when its outcome is reported:
/// the orchestrator is idle after a step if and only if the step's action is
/// `Finish`.
pub proof fn lemma_request_moves_forward(orchestrator: OrchestratorView, event: EventView)
    ensures
        ({
            let told = orchestrator.handled(event);
            &&& told.1 is None ==> told.0 == orchestrator
            &&& told.1 matches Some(action) ==> {
                &&& !(orchestrator.phase is Idle)
                &&& action is Finish <==> told.0.phase is Idle
                &&& !(told.0.phase is Idle) ==> progress(told.0.phase.state()) >= progress(
                    orchestrator.phase.state(),
                )
            }
        }),
{
}

/// While a request is in flight no other is started: a new request waits
/// without any action being taken for it, resuming does nothing, and the
/// steps of the request in flight are what they would be had no other
/// request been made.
pub proof fn lemma_requests_are_serialized(
    orchestrator: OrchestratorView,
    request: RequestView,
    event: EventView,
)
    requires
        !(orchestrator.phase is Idle),
    ensures
        ({
            let queued = orchestrator.submitted(request);
            &&& queued.1 is None
            &&& queued.0 == OrchestratorView {
                waiting: orchestrator.waiting.push(request),
                ..orchestrator
            }
            &&& orchestrator.resumed() == (orchestrator, None::<ActionView>)
            &&& queued.0.handled(event).1 == orchestrator.handled(event).1
            &&& queued.0.handled(event).0.phase == orchestrator.handled(event).0.phase
        }),
{
}

/// A request that waits is started only by `resume`, and only once the
/// request before it is over: whatever events arrive, they move the
/// orchestrator as they would without the waiting request, which still
/// waits afterwards.
pub proof fn lemma_waiting_request_keeps_waiting(
    orchestrator: OrchestratorView,
    request: RequestView,
    events: Seq<EventView>,
)
    requires
        !(orchestrator.phase is Idle) || orchestrator.waiting.len() > 0,
    ensures
        orchestrator.submitted(request).0.after(events) == (OrchestratorView {
            waiting: orchestrator.waiting.push(request),
            ..orchestrator.after(events)
        }),
    decreases events.len(),
{
    if events.len() > 0 {
        lemma_waiting_request_keeps_waiting(orchestrator, request, events.drop_last());
    }
}

/// Sequences requests: capture and copy, one at a time.
#[derive(Debug)]
pub struct CaptureOrchestrator {
    store: ImageManager,
    translation: PathTranslation,
    phase: Phase,
    waiting: Vec<Request>,
}

impl View for CaptureOrchestrator {
    type V = OrchestratorView;

    closed spec fn view(&self) -> OrchestratorView {
        OrchestratorView {
            store: self.store@,
            translation: self.translation,
            phase: self.phase@,
            waiting: request_views(self.waiting@),
        }
    }
}

impl CaptureOrchestrator {
    /// An orchestrator for `store` with no request in flight and none
    /// waiting.
    pub fn new(store: ImageManager, translation: PathTranslation) -> (orchestrator: Self)
        ensures
            orchestrator@ == (OrchestratorView {
                store: store@,
                translation,
                phase: PhaseView::Idle,
                waiting: Seq::empty(),
            }),
    {
        let orchestrator = CaptureOrchestrator {
            store,
            translation,
            phase: Phase::Idle,
            waiting: Vec::new(),
        };
        assert(request_views(orchestrator.waiting@) =~= Seq::empty());
        orchestrator
    }

    /// Replaces the store's directory and bound and the way paths are
    /// rewritten, for the steps that follow. No file is moved or deleted by
    /// this, and the request in flight and those waiting stay as they are.
    pub fn update_settings(
        &mut self,
        save_directory: String,
        max_images: usize,
        translation: PathTranslation,
    )
        ensures
            final(self)@ == (OrchestratorView {
                store: ImageManagerView {
                    save_directory: save_directory@,
                    max_images: max_images as nat,
                },
                translation,
                ..old(self)@
            }),
    {
        self.store.update_settings(save_directory, max_images);
        self.translation = translation;
    }

    /// The store.
    pub fn store(&self) -> (store: &ImageManager)
        ensures
            store@ == self@.store,
    {
        &self.store
    }

    /// Where the request in flight stands.
    pub fn state(&self) -> (state: CaptureState)
        ensures
            state == self@.phase.state(),
    {
        match &self.phase {
            Phase::Idle => CaptureState::Idle,
            Phase::ReadingClipboard => CaptureState::ReadingClipboard,
            Phase::WritingResult { .. } => CaptureState::WritingResult,
            _ => CaptureState::Persisting,
        }
    }

    /// The number of requests that wait for their turn.
    pub fn waiting(&self) -> (count: usize)
        ensures
            count == self@.waiting.len(),
    {
        self.waiting.len()
    }

    /// Takes a request. Where no request is in flight and none waits, it is
    /// started and its first action returned. Otherwise it waits: nothing is
    /// returned, and the request in flight goes on undisturbed.
    pub fn submit(&mut self, request: Request) -> (action: Option<Action>)
        ensures
            final(self)@ == old(self)@.submitted(request@).0,
            action_view(action) == old(self)@.submitted(request@).1,
    {
        if self.waiting.len() == 0 && matches!(self.phase, Phase::Idle) {
            let (phase, action) = start(self.translation, request);
            self.phase = phase;
            Some(action)
        } else {
            let ghost before = self.waiting@;
            self.waiting.push(request);
            assert(request_views(self.waiting@) =~= request_views(before).push(request@));
            None
        }
    }

    /// Asks for a capture: the clipboard's image is to be stored and its path
    /// put on the clipboard.
    pub fn capture(&mut self) -> (action: Option<Action>)
        ensures
            final(self)@ == old(self)@.submitted(RequestView::Capture).0,
            action_view(action) == old(self)@.submitted(RequestView::Capture).1,
    {
        self.submit(Request::Capture)
    }

    /// Asks for the path of an image already stored to be put on the
    /// clipboard. Nothing is read from the clipboard and nothing is stored.
    pub fn copy_existing_path(&mut self, path: String) -> (action: Option<Action>)
        ensures
            final(self)@ == old(self)@.submitted(RequestView::CopyExisting { path: path@ }).0,
            action_view(action) == old(self)@.submitted(
                RequestView::CopyExisting { path: path@ },
            ).1,
    {
        self.submit(Request::CopyExisting { path })
    }

    /// Takes what came of the last action and says what is to be done next.
    /// `None` where `event` answers nothing that is waited for: it is then
    /// ignored.
    pub fn handle(&mut self, event: Event) -> (action: Option<Action>)
        ensures
            final(self)@ == old(self)@.handled(event@).0,
            action_view(action) == old(self)@.handled(event@).1,
    {
        let mut phase = Phase::Idle;
        core::mem::swap(&mut self.phase, &mut phase);
        let (next, action) = advance(&self.store, self.translation, phase, event);
        self.phase = next;
        action
    }

    /// Starts the request that has waited longest, where no request is in
    /// flight. `None` where one is in flight or none waits.
    pub fn resume(&mut self) -> (action: Option<Action>)
        ensures
            final(self)@ == old(self)@.resumed().0,
            action_view(action) == old(self)@.resumed().1,
    {
        if self.waiting.len() > 0 && matches!(self.phase, Phase::Idle) {
            let ghost before = self.waiting@;
            let request = self.waiting.remove(0);
            assert(request_views(self.waiting@) =~= request_views(before).drop_first());
            let (phase, action) = start(self.translation, request);
            self.phase = phase;
            Some(action)
        } else {
            None
        }
    }
}

} // verus!
