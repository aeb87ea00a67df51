use image_pathifier::capture::{
    Action, CaptureOrchestrator, CaptureState, ErrorKind, Event, Outcome, Request, Stage,
};
use image_pathifier::codec::decode_stored;
use image_pathifier::image_manager::{DirectoryScan, ImageManager, ScannedEntry};
use image_pathifier::naming::StoredFormat;
use image_pathifier::path_resolver::PathTranslation;

/// A clipboard and a directory held in memory, which carry out the
/// orchestrator's actions and count them.
struct World {
    clipboard_image: Option<(usize, usize, Vec<u8>)>,
    clipboard_text: Option<String>,
    clipboard_broken: bool,
    directory: Option<Vec<(String, i128, Vec<u8>)>>,
    undeletable: Option<String>,
    unwritable: bool,
    clock: i128,
    log: Vec<String>,
}

impl World {
    fn new() -> World {
        World {
            clipboard_image: Some((2, 1, vec![1, 2, 3, 255, 4, 5, 6, 255])),
            clipboard_text: None,
            clipboard_broken: false,
            directory: None,
            undeletable: None,
            unwritable: false,
            clock: 1000,
            log: Vec::new(),
        }
    }

    fn scan(&self) -> DirectoryScan {
        match &self.directory {
            None => DirectoryScan::Missing,
            Some(files) => DirectoryScan::Found(
                files
                    .iter()
                    .map(|(name, modified, _)| ScannedEntry {
                        path: format!("C:\\store\\{}", name),
                        file_name: name.clone(),
                        is_file: true,
                        modified: Some(*modified),
                    })
                    .collect(),
            ),
        }
    }

    fn names(&self) -> Vec<String> {
        let mut names: Vec<String> =
            self.directory.iter().flatten().map(|(name, _, _)| name.clone()).collect();
        names.sort();
        names
    }

    fn count(&self, what: &str) -> usize {
        self.log.iter().filter(|entry| entry.as_str() == what).count()
    }

    fn failed(message: &str) -> Event {
        Event::Failed { message: String::from(message) }
    }

    fn perform(&mut self, action: Action) -> Result<Event, Outcome> {
        match action {
            Action::ReadClipboardImage => {
                self.log.push(String::from("read"));
                if self.clipboard_broken {
                    return Ok(World::failed("clipboard is locked"));
                }
                Ok(match self.clipboard_image.clone() {
                    Some((width, height, bytes)) => Event::ClipboardImage { width, height, bytes },
                    None => Event::ClipboardEmpty,
                })
            }
            Action::ScanDirectory { directory } => {
                assert_eq!(directory, "C:\\store");
                self.log.push(String::from("scan"));
                Ok(Event::DirectoryScanned { scan: self.scan() })
            }
            Action::CreateDirectory { directory } => {
                assert_eq!(directory, "C:\\store");
                self.log.push(String::from("mkdir"));
                self.directory = Some(Vec::new());
                Ok(Event::DirectoryCreated)
            }
            Action::WriteFile { directory, file_name, contents } => {
                assert_eq!(directory, "C:\\store");
                self.log.push(String::from("write"));
                if self.unwritable {
                    return Ok(World::failed("disk full"));
                }
                let files = self.directory.as_mut().unwrap();
                assert!(files.iter().all(|(name, _, _)| *name != file_name));
                self.clock += 1;
                files.push((file_name.clone(), self.clock, contents));
                Ok(Event::FileWritten { path: format!("C:\\store\\{}", file_name) })
            }
            Action::RemoveFile { path } => {
                self.log.push(String::from("remove"));
                if self.undeletable.as_deref() == Some(path.as_str()) {
                    return Ok(World::failed("file is in use"));
                }
                let files = self.directory.as_mut().unwrap();
                let before = files.len();
                files.retain(|(name, _, _)| format!("C:\\store\\{}", name) != path);
                assert_eq!(files.len() + 1, before);
                Ok(Event::FileRemoved)
            }
            Action::Canonicalize { path } => {
                self.log.push(String::from("canonicalize"));
                let exists = self
                    .directory
                    .iter()
                    .flatten()
                    .any(|(name, _, _)| format!("C:\\store\\{}", name) == path);
                if exists {
                    Ok(Event::Canonicalized { path: format!("\\\\?\\{}", path) })
                } else {
                    Ok(World::failed("no such file"))
                }
            }
            Action::WriteClipboardText { text } => {
                self.log.push(String::from("text"));
                if self.clipboard_broken {
                    return Ok(World::failed("clipboard is locked"));
                }
                self.clipboard_text = Some(text);
                Ok(Event::TextWritten)
            }
            Action::Finish { outcome } => Err(outcome),
        }
    }

    /// Carries out actions until the request in flight is over.
    fn run(&mut self, orchestrator: &mut CaptureOrchestrator, first: Action) -> Outcome {
        let mut action = first;
        loop {
            match self.perform(action) {
                Ok(event) => action = orchestrator.handle(event).unwrap(),
                Err(outcome) => return outcome,
            }
        }
    }

    fn capture(&mut self, orchestrator: &mut CaptureOrchestrator) -> Outcome {
        let first = orchestrator.capture().unwrap();
        self.run(orchestrator, first)
    }
}

fn orchestrator(max_images: usize, translation: PathTranslation) -> CaptureOrchestrator {
    CaptureOrchestrator::new(ImageManager::new(String::from("C:\\store"), max_images), translation)
}

#[test]
fn capture_stores_the_image_and_hands_out_its_path() {
    let mut world = World::new();
    world.directory = Some(Vec::new());
    let mut o = orchestrator(3, PathTranslation::SubsystemMount);
    let outcome = world.capture(&mut o);
    assert_eq!(
        outcome,
        Outcome::Saved {
            path: String::from("\\\\?\\C:\\store\\img_0001.png"),
            text: String::from("/mnt/c/store/img_0001.png"),
        }
    );
    assert_eq!(world.clipboard_text.as_deref(), Some("/mnt/c/store/img_0001.png"));
    assert_eq!(world.names(), vec!["img_0001.png"]);
    assert_eq!(o.state(), CaptureState::Idle);
    assert_eq!(world.log, vec!["read", "scan", "write", "scan", "canonicalize", "text"]);
    let stored = &world.directory.as_ref().unwrap()[0].2;
    let image = decode_stored(stored, StoredFormat::Png, None).unwrap();
    assert_eq!((image.width(), image.height()), (2, 1));
    assert_eq!(image.into_raw(), vec![1, 2, 3, 255, 4, 5, 6, 255]);
}

#[test]
fn path_is_handed_out_unchanged_without_translation() {
    let mut world = World::new();
    world.directory = Some(Vec::new());
    let mut o = orchestrator(3, PathTranslation::Identity);
    let outcome = world.capture(&mut o);
    assert_eq!(
        outcome,
        Outcome::Saved {
            path: String::from("\\\\?\\C:\\store\\img_0001.png"),
            text: String::from("\\\\?\\C:\\store\\img_0001.png"),
        }
    );
}

#[test]
fn two_saves_into_an_empty_directory_are_numbered_one_and_two() {
    let mut world = World::new();
    world.directory = Some(Vec::new());
    let mut o = orchestrator(5, PathTranslation::Identity);
    world.capture(&mut o);
    assert_eq!(world.names(), vec!["img_0001.png"]);
    world.capture(&mut o);
    assert_eq!(world.names(), vec!["img_0001.png", "img_0002.png"]);
}

#[test]
fn missing_directory_is_created_first() {
    let mut world = World::new();
    let mut o = orchestrator(3, PathTranslation::Identity);
    let outcome = world.capture(&mut o);
    assert!(matches!(outcome, Outcome::Saved { .. }));
    assert_eq!(world.log, vec!["read", "scan", "mkdir", "write", "scan", "canonicalize", "text"]);
    assert_eq!(world.names(), vec!["img_0001.png"]);
}

#[test]
fn fourth_save_with_a_bound_of_three_evicts_the_first() {
    let mut world = World::new();
    world.directory = Some(Vec::new());
    let mut o = orchestrator(3, PathTranslation::Identity);
    for _ in 0..4 {
        assert!(matches!(world.capture(&mut o), Outcome::Saved { .. }));
    }
    assert_eq!(world.names(), vec!["img_0002.png", "img_0003.png", "img_0004.png"]);
    assert_eq!(
        o.store().list_images(&world.scan()),
        vec!["C:\\store\\img_0004.png", "C:\\store\\img_0003.png", "C:\\store\\img_0002.png"]
    );
    assert_eq!(world.count("remove"), 1);
}

#[test]
fn numbers_are_not_used_again_after_eviction() {
    let mut world = World::new();
    world.directory = Some(Vec::new());
    let mut o = orchestrator(1, PathTranslation::Identity);
    for _ in 0..5 {
        world.capture(&mut o);
    }
    assert_eq!(world.names(), vec!["img_0005.png"]);
}

#[test]
fn lowering_the_bound_evicts_at_the_next_save() {
    let mut world = World::new();
    world.directory = Some(Vec::new());
    let mut o = orchestrator(10, PathTranslation::Identity);
    for _ in 0..5 {
        world.capture(&mut o);
    }
    o.update_settings(String::from("C:\\store"), 2, PathTranslation::Identity);
    assert_eq!(world.names().len(), 5);
    assert_eq!(o.store().max_images(), 2);
    world.capture(&mut o);
    assert_eq!(world.names(), vec!["img_0005.png", "img_0006.png"]);
    assert_eq!(world.count("remove"), 4);
}

#[test]
fn other_files_in_the_directory_are_left_alone() {
    let mut world = World::new();
    world.directory = Some(vec![
        (String::from("wallpaper.png"), 1, vec![]),
        (String::from("notes.txt"), 2, vec![]),
        (String::from("img_0007.jpg"), 3, vec![]),
    ]);
    let mut o = orchestrator(1, PathTranslation::Identity);
    world.capture(&mut o);
    assert_eq!(world.names(), vec!["img_0008.png", "notes.txt", "wallpaper.png"]);
}

#[test]
fn no_image_on_the_clipboard_writes_nothing() {
    let mut world = World::new();
    world.clipboard_image = None;
    world.directory = Some(Vec::new());
    let mut o = orchestrator(3, PathTranslation::Identity);
    assert_eq!(world.capture(&mut o), Outcome::NoImagePresent);
    assert_eq!(world.log, vec!["read"]);
    assert_eq!(world.names(), Vec::<String>::new());
    assert_eq!(world.clipboard_text, None);
    assert_eq!(o.state(), CaptureState::Idle);
}

#[test]
fn no_image_and_no_directory_creates_nothing() {
    let mut world = World::new();
    world.clipboard_image = None;
    let mut o = orchestrator(3, PathTranslation::Identity);
    assert_eq!(world.capture(&mut o), Outcome::NoImagePresent);
    assert!(world.directory.is_none());
}

#[test]
fn unreadable_clipboard_fails_while_reading() {
    let mut world = World::new();
    world.clipboard_broken = true;
    let mut o = orchestrator(3, PathTranslation::Identity);
    assert_eq!(
        world.capture(&mut o),
        Outcome::Failed {
            stage: Stage::ReadingClipboard,
            kind: ErrorKind::ClipboardUnavailable,
            message: String::from("clipboard is locked"),
        }
    );
    assert_eq!(world.log, vec!["read"]);
    assert_eq!(o.state(), CaptureState::Idle);
}

#[test]
fn malformed_clipboard_image_fails_while_reading() {
    let mut world = World::new();
    world.clipboard_image = Some((2, 2, vec![0; 15]));
    let mut o = orchestrator(3, PathTranslation::Identity);
    assert_eq!(
        world.capture(&mut o),
        Outcome::Failed {
            stage: Stage::ReadingClipboard,
            kind: ErrorKind::DecodeError,
            message: String::from("the clipboard image is not a valid RGBA pixel buffer"),
        }
    );
    assert_eq!(world.log, vec!["read"]);
}

#[test]
fn failed_write_fails_while_persisting() {
    let mut world = World::new();
    world.directory = Some(Vec::new());
    world.unwritable = true;
    let mut o = orchestrator(3, PathTranslation::Identity);
    assert_eq!(
        world.capture(&mut o),
        Outcome::Failed {
            stage: Stage::Persisting,
            kind: ErrorKind::PersistenceError,
            message: String::from("disk full"),
        }
    );
    assert_eq!(world.log, vec!["read", "scan", "write"]);
    assert_eq!(world.clipboard_text, None);
    assert_eq!(o.state(), CaptureState::Idle);
}

#[test]
fn exhausted_numbers_fail_while_persisting() {
    let mut world = World::new();
    world.directory = Some(vec![(String::from("img_4294967295.png"), 1, vec![])]);
    let mut o = orchestrator(3, PathTranslation::Identity);
    assert_eq!(
        world.capture(&mut o),
        Outcome::Failed {
            stage: Stage::Persisting,
            kind: ErrorKind::PersistenceError,
            message: String::from("no sequence number is left for a new image"),
        }
    );
    assert_eq!(world.count("write"), 0);
}

#[test]
fn failed_eviction_is_reported_and_keeps_the_new_file() {
    let mut world = World::new();
    world.directory = Some(Vec::new());
    let mut o = orchestrator(1, PathTranslation::Identity);
    world.capture(&mut o);
    world.undeletable = Some(String::from("C:\\store\\img_0001.png"));
    world.clipboard_text = None;
    assert_eq!(
        world.capture(&mut o),
        Outcome::Failed {
            stage: Stage::Persisting,
            kind: ErrorKind::PersistenceError,
            message: String::from("file is in use"),
        }
    );
    assert_eq!(world.names(), vec!["img_0001.png", "img_0002.png"]);
    assert_eq!(world.clipboard_text, None);
    assert_eq!(o.state(), CaptureState::Idle);
    world.undeletable = None;
    assert!(matches!(world.capture(&mut o), Outcome::Saved { .. }));
    assert_eq!(world.names(), vec!["img_0003.png"]);
}

#[test]
fn unwritable_clipboard_fails_while_writing_the_result() {
    let mut world = World::new();
    world.directory = Some(Vec::new());
    let mut o = orchestrator(3, PathTranslation::Identity);
    let first = o.capture().unwrap();
    let mut action = first;
    let outcome = loop {
        if matches!(action, Action::WriteClipboardText { .. }) {
            world.clipboard_broken = true;
        }
        match world.perform(action) {
            Ok(event) => action = o.handle(event).unwrap(),
            Err(outcome) => break outcome,
        }
    };
    assert_eq!(
        outcome,
        Outcome::Failed {
            stage: Stage::WritingResult,
            kind: ErrorKind::ClipboardUnavailable,
            message: String::from("clipboard is locked"),
        }
    );
    assert_eq!(world.names(), vec!["img_0001.png"]);
}

#[test]
fn states_follow_one_another() {
    let mut world = World::new();
    world.directory = Some(Vec::new());
    let mut o = orchestrator(3, PathTranslation::Identity);
    assert_eq!(o.state(), CaptureState::Idle);
    let mut action = o.capture().unwrap();
    let mut seen = vec![o.state()];
    loop {
        match world.perform(action) {
            Ok(event) => action = o.handle(event).unwrap(),
            Err(_) => break,
        }
        if seen.last() != Some(&o.state()) {
            seen.push(o.state());
        }
    }
    assert_eq!(
        seen,
        vec![
            CaptureState::ReadingClipboard,
            CaptureState::Persisting,
            CaptureState::WritingResult,
            CaptureState::Idle
        ]
    );
}

#[test]
fn existing_path_is_copied_without_reading_or_storing() {
    let mut world = World::new();
    world.directory = Some(Vec::new());
    let mut o = orchestrator(3, PathTranslation::SubsystemMount);
    let first = o.copy_existing_path(String::from("E:\\workspace\\img_0003.png")).unwrap();
    assert_eq!(
        first,
        Action::WriteClipboardText { text: String::from("/mnt/e/workspace/img_0003.png") }
    );
    assert_eq!(o.state(), CaptureState::WritingResult);
    let outcome = world.run(&mut o, first);
    assert_eq!(outcome, Outcome::Copied { text: String::from("/mnt/e/workspace/img_0003.png") });
    assert_eq!(world.log, vec!["text"]);
    assert_eq!(world.clipboard_text.as_deref(), Some("/mnt/e/workspace/img_0003.png"));
}

#[test]
fn copying_fails_while_writing_the_result() {
    let mut world = World::new();
    world.clipboard_broken = true;
    let mut o = orchestrator(3, PathTranslation::Identity);
    let first = o.copy_existing_path(String::from("/store/img_0001.png")).unwrap();
    assert_eq!(
        world.run(&mut o, first),
        Outcome::Failed {
            stage: Stage::WritingResult,
            kind: ErrorKind::ClipboardUnavailable,
            message: String::from("clipboard is locked"),
        }
    );
}

#[test]
fn second_capture_waits_for_the_first() {
    let mut world = World::new();
    world.directory = Some(Vec::new());
    let mut o = orchestrator(3, PathTranslation::Identity);
    let first = o.capture().unwrap();
    assert_eq!(first, Action::ReadClipboardImage);
    assert_eq!(o.capture(), None);
    assert_eq!(o.waiting(), 1);
    assert_eq!(o.state(), CaptureState::ReadingClipboard);
    assert_eq!(o.resume(), None);
    assert!(matches!(world.run(&mut o, first), Outcome::Saved { .. }));
    assert_eq!(world.count("read"), 1);
    assert_eq!(o.waiting(), 1);
    let second = o.resume().unwrap();
    assert_eq!(second, Action::ReadClipboardImage);
    assert_eq!(o.waiting(), 0);
    assert!(matches!(world.run(&mut o, second), Outcome::Saved { .. }));
    assert_eq!(
        world.log,
        vec![
            "read", "scan", "write", "scan", "canonicalize", "text", "read", "scan", "write",
            "scan", "canonicalize", "text"
        ]
    );
    assert_eq!(o.resume(), None);
}

#[test]
fn waiting_requests_are_started_in_the_order_they_came() {
    let mut o = orchestrator(3, PathTranslation::Identity);
    let first = o.submit(Request::CopyExisting { path: String::from("a") });
    assert_eq!(first, Some(Action::WriteClipboardText { text: String::from("a") }));
    assert_eq!(o.submit(Request::CopyExisting { path: String::from("b") }), None);
    assert_eq!(o.submit(Request::Capture), None);
    assert_eq!(o.submit(Request::CopyExisting { path: String::from("c") }), None);
    assert_eq!(o.waiting(), 3);
    assert_eq!(
        o.handle(Event::TextWritten),
        Some(Action::Finish { outcome: Outcome::Copied { text: String::from("a") } })
    );
    // A request made before the waiting ones are resumed waits behind them.
    assert_eq!(o.submit(Request::CopyExisting { path: String::from("d") }), None);
    assert_eq!(o.resume(), Some(Action::WriteClipboardText { text: String::from("b") }));
    o.handle(Event::TextWritten);
    assert_eq!(o.resume(), Some(Action::ReadClipboardImage));
    o.handle(Event::ClipboardEmpty);
    assert_eq!(o.resume(), Some(Action::WriteClipboardText { text: String::from("c") }));
    o.handle(Event::TextWritten);
    assert_eq!(o.resume(), Some(Action::WriteClipboardText { text: String::from("d") }));
    o.handle(Event::TextWritten);
    assert_eq!(o.resume(), None);
    assert_eq!(o.waiting(), 0);
}

#[test]
fn events_that_answer_nothing_are_ignored() {
    let mut o = orchestrator(3, PathTranslation::Identity);
    assert_eq!(o.handle(Event::TextWritten), None);
    assert_eq!(o.handle(Event::Failed { message: String::from("x") }), None);
    assert_eq!(o.state(), CaptureState::Idle);
    o.capture().unwrap();
    assert_eq!(o.handle(Event::TextWritten), None);
    assert_eq!(o.handle(Event::FileRemoved), None);
    assert_eq!(o.handle(Event::DirectoryCreated), None);
    assert_eq!(o.handle(Event::DirectoryScanned { scan: DirectoryScan::Missing }), None);
    assert_eq!(o.state(), CaptureState::ReadingClipboard);
    let next = o.handle(Event::ClipboardImage { width: 1, height: 1, bytes: vec![0; 4] });
    assert_eq!(next, Some(Action::ScanDirectory { directory: String::from("C:\\store") }));
    assert_eq!(o.handle(Event::ClipboardEmpty), None);
    assert_eq!(o.handle(Event::FileWritten { path: String::from("x") }), None);
    assert_eq!(o.state(), CaptureState::Persisting);
}

#[test]
fn new_settings_hold_for_the_steps_that_follow() {
    let mut o = orchestrator(3, PathTranslation::Identity);
    o.update_settings(String::from("/elsewhere"), 9, PathTranslation::SubsystemMount);
    assert_eq!(o.store().save_directory(), "/elsewhere");
    assert_eq!(o.store().max_images(), 9);
    assert_eq!(
        o.copy_existing_path(String::from("C:\\x")),
        Some(Action::WriteClipboardText { text: String::from("/mnt/c/x") })
    );
}
