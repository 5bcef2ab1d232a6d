use avif_batch::error::ConvertError;
use avif_batch::extension::ImageKind;
use avif_batch::pipeline::{Action, ConversionOutcome, Event, ImageFile, Input, Pipeline, Step};
use avif_batch::report::RunReport;
use avif_batch::timestamp::{CaptureTimestamp, FileTime, WallClock};
use chrono::{Local, TimeZone};
use image::{DynamicImage, ImageFormat, Rgb, RgbImage};
use std::io::Cursor;

/// A source file and the directory around it, as far as a conversion can
/// see and change them.
struct World {
    source: Option<Vec<u8>>,
    created: Option<FileTime>,
    modified: Option<FileTime>,
    directory: Vec<String>,
    written: Vec<(String, Vec<u8>)>,
    write_fails: bool,
    delete_fails: bool,
    /// Names that another conversion takes right after they were probed.
    stolen: Vec<String>,
    log: Vec<String>,
}

impl World {
    fn new(source: Vec<u8>, modified: Option<FileTime>) -> World {
        World {
            source: Some(source),
            created: None,
            modified,
            directory: Vec::new(),
            written: Vec::new(),
            write_fails: false,
            delete_fails: false,
            stolen: Vec::new(),
            log: Vec::new(),
        }
    }

    fn perform(&mut self, action: Action) -> Event {
        match action {
            Action::ReadSource => {
                self.log.push(String::from("read"));
                match &self.source {
                    Some(bytes) => Event::SourceRead(bytes.clone()),
                    None => Event::Failed,
                }
            }
            Action::ReadFileTimes => {
                self.log.push(String::from("times"));
                Event::FileTimes { created: self.created, modified: self.modified }
            }
            Action::Probe { name } => {
                self.log.push(format!("probe {}", name));
                let exists = self.directory.contains(&name);
                if self.stolen.contains(&name) && !exists {
                    self.directory.push(name);
                }
                Event::Probed { exists }
            }
            Action::Write { name, data } => {
                self.log.push(format!("write {}", name));
                if self.write_fails {
                    Event::Failed
                } else if self.directory.contains(&name) {
                    Event::NameTaken
                } else {
                    self.directory.push(name.clone());
                    self.written.push((name, data));
                    Event::Written
                }
            }
            Action::DeleteSource => {
                self.log.push(String::from("delete"));
                if self.delete_fails {
                    Event::Failed
                } else {
                    self.source = None;
                    Event::Deleted
                }
            }
        }
    }

    fn convert(&mut self, file: &ImageFile) -> ConversionOutcome {
        let mut step = Pipeline::start(file);
        loop {
            match step {
                Step::Done(outcome) => return outcome,
                Step::Next(pipeline, action) => {
                    let event = self.perform(action);
                    step = pipeline.step(event).0;
                }
            }
        }
    }
}

fn file(path: &str, kind: ImageKind) -> ImageFile {
    ImageFile { path: String::from(path), directory: Some(String::from("/photos")), kind }
}

fn png() -> Vec<u8> {
    let image = RgbImage::from_pixel(4, 3, Rgb([10, 200, 30]));
    let mut bytes: Vec<u8> = Vec::new();
    DynamicImage::ImageRgb8(image).write_to(&mut Cursor::new(&mut bytes), ImageFormat::Png).unwrap();
    bytes
}

/// A JPEG file that carries `date` as the time of its original capture.
fn jpeg_taken_at(date: &str) -> Vec<u8> {
    let image = RgbImage::from_pixel(8, 8, Rgb([10, 200, 30]));
    let mut jpeg: Vec<u8> = Vec::new();
    DynamicImage::ImageRgb8(image).write_to(&mut Cursor::new(&mut jpeg), ImageFormat::Jpeg).unwrap();
    assert_eq!(&jpeg[0..4], &[0xff, 0xd8, 0xff, 0xe0]);
    let first_segment: usize = 2 + 2 + (jpeg[4] as usize) * 256 + jpeg[5] as usize;

    let mut value: Vec<u8> = date.as_bytes().to_vec();
    value.push(0);
    let mut tiff: Vec<u8> = Vec::new();
    tiff.extend_from_slice(b"MM\0*");
    tiff.extend_from_slice(&8u32.to_be_bytes());
    tiff.extend_from_slice(&1u16.to_be_bytes());
    tiff.extend_from_slice(&0x8769u16.to_be_bytes());
    tiff.extend_from_slice(&4u16.to_be_bytes());
    tiff.extend_from_slice(&1u32.to_be_bytes());
    tiff.extend_from_slice(&26u32.to_be_bytes());
    tiff.extend_from_slice(&0u32.to_be_bytes());
    tiff.extend_from_slice(&1u16.to_be_bytes());
    tiff.extend_from_slice(&0x9003u16.to_be_bytes());
    tiff.extend_from_slice(&2u16.to_be_bytes());
    tiff.extend_from_slice(&(value.len() as u32).to_be_bytes());
    tiff.extend_from_slice(&44u32.to_be_bytes());
    tiff.extend_from_slice(&0u32.to_be_bytes());
    tiff.extend_from_slice(&value);

    let mut segment: Vec<u8> = vec![0xff, 0xe1];
    segment.extend_from_slice(&((2 + 6 + tiff.len()) as u16).to_be_bytes());
    segment.extend_from_slice(b"Exif\0\0");
    segment.extend_from_slice(&tiff);

    let mut bytes: Vec<u8> = jpeg[..first_segment].to_vec();
    bytes.extend_from_slice(&segment);
    bytes.extend_from_slice(&jpeg[first_segment..]);
    bytes
}

fn local_midnight_2023() -> FileTime {
    let zoned = Local.with_ymd_and_hms(2023, 1, 1, 0, 0, 0).single().unwrap();
    FileTime { secs: zoned.timestamp(), nanos: 0 }
}

fn is_avif(bytes: &[u8]) -> bool {
    bytes.len() > 12 && &bytes[4..8] == b"ftyp" && &bytes[8..12] == b"avif"
}

fn name_of(outcome: &ConversionOutcome) -> String {
    match outcome {
        ConversionOutcome::Converted { name } => name.clone(),
        ConversionOutcome::Failed { error } => panic!("failed with {:?}", error),
    }
}

fn error_of(outcome: &ConversionOutcome) -> ConvertError {
    match outcome {
        ConversionOutcome::Converted { name } => panic!("converted to {}", name),
        ConversionOutcome::Failed { error } => *error,
    }
}

#[test]
fn photo_with_metadata_is_named_after_it() {
    let photo = file("/photos/photo.jpg", ImageKind::Jpeg);
    let mut world = World::new(jpeg_taken_at("2024:03:15 14:22:10"), Some(local_midnight_2023()));
    let outcome = world.convert(&photo);
    assert_eq!(name_of(&outcome), "2024年03月15日 14-22-10.avif");
    assert_eq!(world.source, None);
    assert_eq!(world.written.len(), 1);
    assert_eq!(world.written[0].0, "2024年03月15日 14-22-10.avif");
    assert!(is_avif(&world.written[0].1));
    assert_eq!(
        world.log,
        vec!["read", "probe 2024年03月15日 14-22-10.avif", "read", "write 2024年03月15日 14-22-10.avif", "delete"]
    );

    let mut report = RunReport::new(1);
    assert!(report.record(&photo.path, &outcome));
    assert_eq!(report.total(), 1);
    assert_eq!(report.converted(), 1);
    assert_eq!(report.deleted(), 1);
    assert_eq!(report.failed(), 0);
}

#[test]
fn files_with_the_same_file_time_get_numbered_names() {
    let mut directory: Vec<String> = Vec::new();
    let mut names: Vec<String> = Vec::new();
    for path in ["/photos/a.png", "/photos/b.png"] {
        let mut world = World::new(png(), Some(local_midnight_2023()));
        world.directory = directory;
        let outcome = world.convert(&file(path, ImageKind::Png));
        names.push(name_of(&outcome));
        assert_eq!(world.source, None);
        assert!(world.log.contains(&String::from("times")));
        directory = world.directory;
    }
    assert_eq!(names, vec!["2023年01月01日 00-00-00.avif", "2023年01月01日 00-00-00(1).avif"]);
    assert_eq!(directory, names);
}

#[test]
fn many_files_with_one_capture_time_all_keep_their_own_name() {
    let mut directory: Vec<String> = Vec::new();
    let mut count: usize = 0;
    while count < 4 {
        let mut world = World::new(jpeg_taken_at("2024:03:15 14:22:10"), None);
        world.directory = directory;
        let name = name_of(&world.convert(&file("/photos/x.jpeg", ImageKind::Jpeg)));
        let expected = if count == 0 {
            String::from("2024年03月15日 14-22-10.avif")
        } else {
            format!("2024年03月15日 14-22-10({}).avif", count)
        };
        assert_eq!(name, expected);
        directory = world.directory;
        count += 1;
        assert_eq!(directory.len(), count);
    }
}

#[test]
fn creation_time_comes_before_modification_time() {
    let mut world = World::new(png(), Some(local_midnight_2023()));
    let created = Local.with_ymd_and_hms(2022, 6, 7, 8, 9, 10).single().unwrap();
    world.created = Some(FileTime { secs: created.timestamp(), nanos: 5 });
    let outcome = world.convert(&file("/photos/a.png", ImageKind::Png));
    assert_eq!(name_of(&outcome), "2022年06月07日 08-09-10.avif");
}

#[test]
fn corrupt_input_fails_and_keeps_the_source() {
    let broken = file("/photos/broken.jpg", ImageKind::Jpeg);
    let mut world = World::new(b"this is no image".to_vec(), Some(local_midnight_2023()));
    let outcome = world.convert(&broken);
    assert_eq!(error_of(&outcome), ConvertError::DecodeFailure);
    assert_eq!(world.source, Some(b"this is no image".to_vec()));
    assert!(world.written.is_empty());
    assert!(!world.log.contains(&String::from("delete")));

    let mut report = RunReport::new(1);
    assert!(report.record(&broken.path, &outcome));
    assert_eq!(report.converted(), 0);
    assert_eq!(report.deleted(), 0);
    assert_eq!(report.failed(), 1);
    assert_eq!(report.failures().len(), 1);
    assert_eq!(report.failures()[0].path, "/photos/broken.jpg");
    assert_eq!(report.failures()[0].error, ConvertError::DecodeFailure);
}

#[test]
fn no_time_at_all_fails() {
    let mut world = World::new(png(), None);
    let outcome = world.convert(&file("/photos/a.png", ImageKind::Png));
    assert_eq!(error_of(&outcome), ConvertError::TimestampUnavailable);
    assert_eq!(world.log, vec!["read", "times"]);
    assert!(world.source.is_some());
}

#[test]
fn unreadable_source_fails_to_decode() {
    let mut world = World::new(Vec::new(), Some(local_midnight_2023()));
    world.source = None;
    let outcome = world.convert(&file("/photos/a.png", ImageKind::Png));
    assert_eq!(error_of(&outcome), ConvertError::DecodeFailure);
    assert_eq!(world.log, vec!["read", "times", "probe 2023年01月01日 00-00-00.avif", "read"]);
}

#[test]
fn path_without_directory_fails_at_once() {
    let lonely = ImageFile { path: String::from("/"), directory: None, kind: ImageKind::Png };
    match Pipeline::start(&lonely) {
        Step::Done(outcome) => assert_eq!(error_of(&outcome), ConvertError::MissingDirectory),
        Step::Next(_, action) => panic!("{:?}", action),
    }
}

#[test]
fn failed_write_keeps_the_source() {
    let mut world = World::new(png(), Some(local_midnight_2023()));
    world.write_fails = true;
    let outcome = world.convert(&file("/photos/a.png", ImageKind::Png));
    assert_eq!(error_of(&outcome), ConvertError::WriteFailure);
    assert!(world.source.is_some());
    assert!(!world.log.contains(&String::from("delete")));
}

#[test]
fn failed_deletion_is_an_error_after_the_write() {
    let mut world = World::new(png(), Some(local_midnight_2023()));
    world.delete_fails = true;
    let outcome = world.convert(&file("/photos/a.png", ImageKind::Png));
    assert_eq!(error_of(&outcome), ConvertError::DeleteFailure);
    assert!(world.source.is_some());
    assert_eq!(world.written.len(), 1);
    assert_eq!(world.log.last().unwrap(), "delete");
}

fn timed_pipeline() -> Pipeline {
    let time = CaptureTimestamp {
        local: WallClock { year: 2024, month: 3, day: 15, hour: 14, minute: 22, second: 10, nano: 0 },
        offset_seconds: 3600,
    };
    let pipeline = match Pipeline::start(&file("/photos/a.png", ImageKind::Png)) {
        Step::Next(pipeline, Action::ReadSource) => pipeline,
        _ => panic!("the first action reads the source"),
    };
    match pipeline.advance(Input::Timed(time)) {
        Step::Next(pipeline, Action::Probe { name }) => {
            assert_eq!(name, "2024年03月15日 14-22-10.avif");
            pipeline
        }
        _ => panic!("a capture time is followed by a probe"),
    }
}

#[test]
fn names_run_out_after_ten_thousand_suffixes() {
    let mut pipeline = timed_pipeline();
    let mut probes: u32 = 1;
    let outcome = loop {
        match pipeline.step(Event::Probed { exists: true }).0 {
            Step::Next(next, Action::Probe { name }) => {
                assert_eq!(name, format!("2024年03月15日 14-22-10({}).avif", probes));
                probes += 1;
                pipeline = next;
            }
            Step::Next(_, action) => panic!("{:?}", action),
            Step::Done(outcome) => break outcome,
        }
    };
    assert_eq!(probes, 10_001);
    assert_eq!(error_of(&outcome), ConvertError::NamingExhausted);
}

#[test]
fn a_probe_without_answer_counts_as_taken() {
    for event in
        [Event::Failed, Event::Written, Event::NameTaken, Event::Deleted, Event::SourceRead(png())]
    {
        match timed_pipeline().step(event).0 {
            Step::Next(_, Action::Probe { name }) => assert_eq!(name, "2024年03月15日 14-22-10(1).avif"),
            _ => panic!("the next candidate is probed"),
        }
    }
}

#[test]
fn advance_follows_the_order_of_the_steps() {
    let pipeline = match timed_pipeline().advance(Input::Probed { exists: false }) {
        Step::Next(pipeline, Action::ReadSource) => pipeline,
        _ => panic!("a free name is followed by reading the source"),
    };
    let pipeline = match pipeline.advance(Input::Encoded(vec![1, 2, 3])) {
        Step::Next(pipeline, Action::Write { name, data }) => {
            assert_eq!(name, "2024年03月15日 14-22-10.avif");
            assert_eq!(data, vec![1, 2, 3]);
            pipeline
        }
        _ => panic!("the encoded image is written"),
    };
    let pipeline = match pipeline.advance(Input::Written) {
        Step::Next(pipeline, Action::DeleteSource) => pipeline,
        _ => panic!("the source is deleted after the write"),
    };
    match pipeline.advance(Input::Deleted) {
        Step::Done(outcome) => assert_eq!(name_of(&outcome), "2024年03月15日 14-22-10.avif"),
        _ => panic!("the deletion ends the conversion"),
    }
}

#[test]
fn advance_fails_with_the_error_of_the_step() {
    let at_pixels = || match timed_pipeline().advance(Input::Probed { exists: false }) {
        Step::Next(pipeline, _) => pipeline,
        _ => panic!("a free name is followed by reading the source"),
    };
    match at_pixels().advance(Input::EncodeFailed) {
        Step::Done(outcome) => assert_eq!(error_of(&outcome), ConvertError::EncodeFailure),
        _ => panic!("an encoding failure ends the conversion"),
    }
    for input in [Input::Failed, Input::Written, Input::Deleted, Input::Probed { exists: false }] {
        match at_pixels().advance(input) {
            Step::Done(outcome) => assert_eq!(error_of(&outcome), ConvertError::DecodeFailure),
            _ => panic!("a source that cannot be had ends the conversion"),
        }
    }
    let at_write = || match at_pixels().advance(Input::Encoded(vec![9])) {
        Step::Next(pipeline, _) => pipeline,
        _ => panic!("the encoded image is written"),
    };
    for input in [Input::Failed, Input::Deleted, Input::Encoded(vec![1])] {
        match at_write().advance(input) {
            Step::Done(outcome) => assert_eq!(error_of(&outcome), ConvertError::WriteFailure),
            _ => panic!("a failed write ends the conversion"),
        }
    }
    let at_delete = || match at_write().advance(Input::Written) {
        Step::Next(pipeline, _) => pipeline,
        _ => panic!("the source is deleted after the write"),
    };
    for input in [Input::Failed, Input::Written] {
        match at_delete().advance(input) {
            Step::Done(outcome) => assert_eq!(error_of(&outcome), ConvertError::DeleteFailure),
            _ => panic!("a failed deletion ends the conversion"),
        }
    }
}

#[test]
fn metadata_that_cannot_be_had_leads_to_the_file_times() {
    for input in [Input::Failed, Input::Written, Input::Probed { exists: true }] {
        let pipeline = match Pipeline::start(&file("/photos/a.png", ImageKind::Png)) {
            Step::Next(pipeline, _) => pipeline,
            _ => panic!("the first action reads the source"),
        };
        let pipeline = match pipeline.advance(input) {
            Step::Next(pipeline, Action::ReadFileTimes) => pipeline,
            _ => panic!("the file times are looked up"),
        };
        match pipeline.advance(Input::Failed) {
            Step::Done(outcome) => assert_eq!(error_of(&outcome), ConvertError::TimestampUnavailable),
            _ => panic!("no time ends the conversion"),
        }
    }
}

#[test]
fn digest_reads_the_capture_time_out_of_the_source() {
    let pipeline = match Pipeline::start(&file("/photos/photo.jpg", ImageKind::Jpeg)) {
        Step::Next(pipeline, _) => pipeline,
        _ => panic!("the first action reads the source"),
    };
    match pipeline.digest(Event::SourceRead(jpeg_taken_at("2024:03:15 14:22:10"))).input {
        Input::Timed(time) => {
            let expected =
                WallClock { year: 2024, month: 3, day: 15, hour: 14, minute: 22, second: 10, nano: 0 };
            assert_eq!(time.local, expected);
        }
        other => panic!("{:?}", other),
    }
    assert!(matches!(pipeline.digest(Event::SourceRead(png())).input, Input::Failed));
    assert!(matches!(pipeline.digest(Event::Failed).input, Input::Failed));
    assert!(matches!(
        pipeline.digest(Event::FileTimes { created: None, modified: Some(local_midnight_2023()) }).input,
        Input::Failed
    ));
    assert!(matches!(pipeline.digest(Event::NameTaken).input, Input::NameTaken));
    assert!(matches!(pipeline.digest(Event::Probed { exists: false }).input, Input::Probed { exists: false }));
    assert!(matches!(pipeline.digest(Event::Written).input, Input::Written));
    assert!(matches!(pipeline.digest(Event::Deleted).input, Input::Deleted));
}

#[test]
fn digest_converts_the_source_when_pixels_are_asked_for() {
    let at_pixels = match timed_pipeline().advance(Input::Probed { exists: false }) {
        Step::Next(pipeline, _) => pipeline,
        _ => panic!("a free name is followed by reading the source"),
    };
    let digest = at_pixels.digest(Event::SourceRead(png()));
    assert!(digest.warnings.is_empty());
    match digest.input {
        Input::Encoded(data) => assert!(is_avif(&data)),
        other => panic!("{:?}", other),
    }
    assert!(matches!(at_pixels.digest(Event::SourceRead(b"no image".to_vec())).input, Input::Failed));
    assert!(matches!(at_pixels.digest(Event::Failed).input, Input::Failed));
}

#[test]
fn a_name_taken_between_probe_and_write_sends_the_search_on() {
    let mut world = World::new(png(), Some(local_midnight_2023()));
    world.stolen = vec![
        String::from("2023年01月01日 00-00-00.avif"),
        String::from("2023年01月01日 00-00-00(1).avif"),
    ];
    let outcome = world.convert(&file("/photos/a.png", ImageKind::Png));
    assert_eq!(name_of(&outcome), "2023年01月01日 00-00-00(2).avif");
    assert_eq!(world.source, None);
    assert_eq!(world.written.len(), 1);
    assert_eq!(world.written[0].0, "2023年01月01日 00-00-00(2).avif");
    assert_eq!(
        world.log,
        vec![
            "read",
            "times",
            "probe 2023年01月01日 00-00-00.avif",
            "read",
            "write 2023年01月01日 00-00-00.avif",
            "probe 2023年01月01日 00-00-00(1).avif",
            "read",
            "write 2023年01月01日 00-00-00(1).avif",
            "probe 2023年01月01日 00-00-00(2).avif",
            "read",
            "write 2023年01月01日 00-00-00(2).avif",
            "delete",
        ]
    );
}

#[test]
fn a_taken_name_after_the_last_number_ends_the_names() {
    let mut pipeline = timed_pipeline();
    let mut probes: u32 = 1;
    while probes <= 10_000 {
        pipeline = match pipeline.advance(Input::Probed { exists: true }) {
            Step::Next(next, Action::Probe { .. }) => next,
            _ => panic!("the next candidate is probed"),
        };
        probes += 1;
    }
    let pipeline = match pipeline.advance(Input::Probed { exists: false }) {
        Step::Next(next, Action::ReadSource) => next,
        _ => panic!("a free name is followed by reading the source"),
    };
    let pipeline = match pipeline.advance(Input::Encoded(vec![1])) {
        Step::Next(next, Action::Write { name, .. }) => {
            assert_eq!(name, "2024年03月15日 14-22-10(10000).avif");
            next
        }
        _ => panic!("the encoded image is written"),
    };
    match pipeline.advance(Input::NameTaken) {
        Step::Done(outcome) => assert_eq!(error_of(&outcome), ConvertError::NamingExhausted),
        _ => panic!("there is no name after number 10000"),
    }
}

#[test]
fn conversions_that_race_all_get_a_name_of_their_own() {
    let workers: usize = 4;
    let mut directory: Vec<String> = Vec::new();
    let mut deleted: Vec<bool> = vec![false; workers];
    let mut names: Vec<Option<String>> = vec![None; workers];
    let mut pending: Vec<Option<(Pipeline, Action)>> = Vec::new();
    let mut worker: usize = 0;
    while worker < workers {
        match Pipeline::start(&file("/photos/a.png", ImageKind::Png)) {
            Step::Next(pipeline, action) => pending.push(Some((pipeline, action))),
            Step::Done(_) => panic!("the first action reads the source"),
        }
        worker += 1;
    }
    // Every round lets each conversion take one step, so that all of them
    // probe the same name before any of them writes.
    let mut running = workers;
    while running > 0 {
        let mut turn: usize = 0;
        while turn < workers {
            if let Some((pipeline, action)) = pending[turn].take() {
                let event = match action {
                    Action::ReadSource => Event::SourceRead(png()),
                    Action::ReadFileTimes => {
                        Event::FileTimes { created: None, modified: Some(local_midnight_2023()) }
                    }
                    Action::Probe { name } => Event::Probed { exists: directory.contains(&name) },
                    Action::Write { name, data } => {
                        assert!(is_avif(&data));
                        if directory.contains(&name) {
                            Event::NameTaken
                        } else {
                            directory.push(name);
                            Event::Written
                        }
                    }
                    Action::DeleteSource => {
                        assert!(!deleted[turn]);
                        deleted[turn] = true;
                        Event::Deleted
                    }
                };
                match pipeline.step(event).0 {
                    Step::Next(pipeline, action) => pending[turn] = Some((pipeline, action)),
                    Step::Done(outcome) => {
                        names[turn] = Some(name_of(&outcome));
                        running -= 1;
                    }
                }
            }
            turn += 1;
        }
    }
    let mut given: Vec<String> = names.into_iter().map(|name| name.unwrap()).collect();
    given.sort();
    let mut expected = vec![
        String::from("2023年01月01日 00-00-00.avif"),
        String::from("2023年01月01日 00-00-00(1).avif"),
        String::from("2023年01月01日 00-00-00(2).avif"),
        String::from("2023年01月01日 00-00-00(3).avif"),
    ];
    expected.sort();
    assert_eq!(given, expected);
    directory.sort();
    assert_eq!(directory, expected);
    assert_eq!(deleted, vec![true; 4]);
}

#[test]
fn step_hands_on_the_warnings_of_the_metadata() {
    let start = || match Pipeline::start(&file("/photos/a.jpg", ImageKind::Jpeg)) {
        Step::Next(pipeline, _) => pipeline,
        _ => panic!("the first action reads the source"),
    };
    let (_, warnings) = start().step(Event::SourceRead(jpeg_taken_at("2024:03:15 14:22:10")));
    assert!(warnings.is_empty());
    let (_, warnings) = start().step(Event::Failed);
    assert!(warnings.is_empty());
}
