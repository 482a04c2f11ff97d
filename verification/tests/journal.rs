use flate2::write::GzEncoder;
use flate2::Compression;
use persistent_workspaces::host::{
    Call, Entry, FileAction, Halt, IoError, IoKind, JournalFile, Reply, Script,
};
use persistent_workspaces::journal::finalization::{
    drain_step, finalization_requested, recorder_arguments, request_finalization, DrainStep,
    InputEvent,
};
use persistent_workspaces::journal::reader::read;
use persistent_workspaces::journal::recorder::Recorder;
use persistent_workspaces::journal::{
    file_name, parse_manifest, retained_storage_bytes, OutputPage, RetentionPolicy,
    MAX_PAGE_BYTES, RECORDER_ARGUMENT, RETAINED_SEGMENTS, SEGMENT_BYTES,
};
use std::collections::HashMap;
use std::io::Write;

/// A journal directory in memory.
#[derive(Default)]
struct Disk {
    made: bool,
    files: HashMap<String, Vec<u8>>,
    /// Entries that are no regular private files.
    odd: Vec<String>,
    /// Everything that was done, in order.
    log: Vec<String>,
}

fn failed(kind: IoKind) -> Reply {
    Reply::Failed(IoError { kind, message: "simulated".to_owned() })
}

impl Disk {
    fn perform(&mut self, call: &Call) -> Reply {
        let action = match call {
            Call::Journal(directory, action) => {
                assert_eq!(directory, "/journal");
                action
            }
            other => panic!("unexpected call {other:?}"),
        };
        self.log.push(format!("{action:?}"));
        match action {
            FileAction::MakeDirectory => {
                if self.made {
                    return failed(IoKind::AlreadyExists);
                }
                self.made = true;
                Reply::Done
            }
            FileAction::Create(file) => {
                let name = file_name(*file);
                if self.files.contains_key(&name) || self.odd.contains(&name) {
                    return failed(IoKind::AlreadyExists);
                }
                self.files.insert(name, Vec::new());
                Reply::Done
            }
            FileAction::Write(file, bytes) => match self.files.get_mut(&file_name(*file)) {
                Some(contents) => {
                    contents.extend_from_slice(bytes);
                    Reply::Done
                }
                None => failed(IoKind::NotFound),
            },
            FileAction::SyncData(_) | FileAction::SyncAll(_) | FileAction::SyncDirectory => {
                Reply::Done
            }
            FileAction::Rename(from, to) => match self.files.remove(&file_name(*from)) {
                Some(contents) => {
                    self.files.insert(file_name(*to), contents);
                    Reply::Done
                }
                None => failed(IoKind::NotFound),
            },
            FileAction::Remove(file) => match self.files.remove(&file_name(*file)) {
                Some(_) => Reply::Done,
                None => failed(IoKind::NotFound),
            },
            FileAction::Length(file) => match self.files.get(&file_name(*file)) {
                Some(contents) => Reply::Number(contents.len() as u64),
                None => failed(IoKind::NotFound),
            },
            FileAction::ReadStart(file, limit) => match self.files.get(&file_name(*file)) {
                Some(contents) => {
                    let end = (*limit).min(contents.len() as u64) as usize;
                    Reply::Bytes(contents[..end].to_vec())
                }
                None => failed(IoKind::NotFound),
            },
            FileAction::ReadAt(file, offset, count) => match self.files.get(&file_name(*file)) {
                Some(contents) => {
                    let start = *offset as usize;
                    let end = start + *count as usize;
                    if end > contents.len() {
                        return failed(IoKind::UnexpectedEof);
                    }
                    Reply::Bytes(contents[start..end].to_vec())
                }
                None => failed(IoKind::NotFound),
            },
            FileAction::Describe(file) => {
                let name = file_name(*file);
                if self.odd.contains(&name) {
                    return Reply::Entry(Entry { directory: false, file: false, private: false });
                }
                if self.files.contains_key(&name) {
                    return Reply::Entry(Entry { directory: false, file: true, private: true });
                }
                failed(IoKind::NotFound)
            }
        }
    }

    fn has(&self, file: JournalFile) -> bool {
        self.files.contains_key(&file_name(file))
    }
}

/// Runs an operation to its end. `between` is called after each call.
fn drive_with<T>(
    disk: &mut Disk,
    mut operation: impl FnMut(&mut Script) -> Result<T, Halt<IoError>>,
    mut between: impl FnMut(&mut Disk),
) -> Result<T, IoError> {
    let mut script = Script::new();
    loop {
        match operation(&mut script) {
            Ok(value) => return Ok(value),
            Err(Halt::Failed(error)) => return Err(error),
            Err(Halt::Waiting) => {
                let reply = disk.perform(script.call(script.len() - 1));
                between(disk);
                script.answer(reply);
            }
        }
    }
}

fn drive<T>(
    disk: &mut Disk,
    operation: impl FnMut(&mut Script) -> Result<T, Halt<IoError>>,
) -> Result<T, IoError> {
    drive_with(disk, operation, |_| {})
}

fn create(disk: &mut Disk) -> Result<Recorder, IoError> {
    drive(disk, |script| Recorder::create(script, "/journal"))
}

fn append(disk: &mut Disk, recorder: &mut Recorder, bytes: &[u8]) -> Result<(), IoError> {
    let bytes = bytes.to_vec();
    drive(disk, |script| recorder.append(script, &bytes))
}

fn close(disk: &mut Disk, recorder: &mut Recorder) -> Result<(), IoError> {
    drive(disk, |script| recorder.close(script))
}

fn page(disk: &mut Disk, cursor: u64, limit: usize) -> Result<OutputPage, IoError> {
    drive(disk, |script| read(script, "/journal", cursor, limit))
}

/// The recorder's loop over its input.
fn drain(disk: &mut Disk, recorder: &mut Recorder, events: Vec<InputEvent>) -> Result<(), IoError> {
    let mut events = events.into_iter();
    loop {
        match drain_step(events.next().expect("no more input is read")) {
            DrainStep::Read => {}
            DrainStep::CheckFinalization => {
                if drive(disk, |script| finalization_requested(script, "/journal"))? {
                    return Ok(());
                }
            }
            DrainStep::Append(bytes) => append(disk, recorder, &bytes)?,
            DrainStep::Finish => return Ok(()),
            DrainStep::Fail(error) => return Err(error),
        }
    }
}

fn input_error(kind: IoKind) -> InputEvent {
    InputEvent::Failed(IoError { kind, message: String::new() })
}

#[test]
fn finalization_drains_pending_bytes_before_closing() {
    let mut disk = Disk::default();
    let mut recorder = create(&mut disk).unwrap();
    drive(&mut disk, |script| request_finalization(script, "/journal")).unwrap();
    drive(&mut disk, |script| request_finalization(script, "/journal")).unwrap();
    drain(
        &mut disk,
        &mut recorder,
        vec![
            InputEvent::Bytes(b"first\r\n".to_vec()),
            input_error(IoKind::Interrupted),
            InputEvent::Bytes(b"last\xff\x00".to_vec()),
            input_error(IoKind::WouldBlock),
        ],
    )
    .unwrap();
    assert!(!page(&mut disk, 0, MAX_PAGE_BYTES).unwrap().closed);
    close(&mut disk, &mut recorder).unwrap();
    let last = page(&mut disk, 0, MAX_PAGE_BYTES).unwrap();
    assert!(last.closed);
    assert_eq!(last.bytes, b"first\r\nlast\xff\x00");
    assert!(disk.has(JournalFile::FinalizeRequest));
}

#[test]
fn quiet_socket_is_not_mistaken_for_shell_exit() {
    let mut disk = Disk::default();
    let mut recorder = create(&mut disk).unwrap();
    drain(
        &mut disk,
        &mut recorder,
        vec![
            input_error(IoKind::TimedOut),
            input_error(IoKind::WouldBlock),
            InputEvent::Bytes(b"still running".to_vec()),
            InputEvent::Bytes(Vec::new()),
        ],
    )
    .unwrap();
    close(&mut disk, &mut recorder).unwrap();
    assert_eq!(page(&mut disk, 0, MAX_PAGE_BYTES).unwrap().bytes, b"still running");
}

#[test]
fn a_broken_input_ends_the_recording_with_its_error() {
    let mut disk = Disk::default();
    let mut recorder = create(&mut disk).unwrap();
    let error = drain(&mut disk, &mut recorder, vec![input_error(IoKind::Other)]).unwrap_err();
    assert_eq!(error.kind, IoKind::Other);
}

#[test]
fn finalization_request_rejects_symlinks() {
    let mut disk = Disk::default();
    let _recorder = create(&mut disk).unwrap();
    disk.odd.push("finalize.request".to_owned());
    assert!(drive(&mut disk, |script| request_finalization(script, "/journal")).is_err());
    assert!(drive(&mut disk, |script| finalization_requested(script, "/journal")).is_err());
}

#[test]
fn raw_shell_hooks_and_non_utf8_output_survive_paging() {
    let mut disk = Disk::default();
    let mut recorder =
        drive(&mut disk, |script| Recorder::with_retention(script, "/journal", 16, 8)).unwrap();
    let expected = b"\x1b]9278;f;{\"hook\":\"Precmd\"}\x07\r\n\xff\x00\x1b[31mred\x1b[0m";
    append(&mut disk, &mut recorder, expected).unwrap();
    close(&mut disk, &mut recorder).unwrap();
    let mut actual = Vec::new();
    let mut cursor = 0;
    loop {
        let page = page(&mut disk, cursor, 7).unwrap();
        assert!(!page.history_gap);
        assert!(page.closed);
        assert_eq!(page.start_cursor, cursor);
        cursor = page.next_cursor;
        actual.extend(page.bytes);
        if cursor == page.high_watermark {
            break;
        }
    }
    assert_eq!(actual, expected);
}

#[test]
fn reconnect_at_cursor_neither_duplicates_nor_loses_live_output() {
    let mut disk = Disk::default();
    let mut recorder = create(&mut disk).unwrap();
    append(&mut disk, &mut recorder, b"before disconnect\n").unwrap();
    let first = page(&mut disk, 0, MAX_PAGE_BYTES).unwrap();
    append(&mut disk, &mut recorder, b"offline\n").unwrap();
    let second = page(&mut disk, first.next_cursor, MAX_PAGE_BYTES).unwrap();
    assert_eq!(second.bytes, b"offline\n");
    let again = page(&mut disk, first.next_cursor, MAX_PAGE_BYTES).unwrap();
    assert_eq!(again.bytes, second.bytes);
    assert_eq!(again.start_cursor, second.start_cursor);
    assert_eq!(again.next_cursor, second.next_cursor);
    assert_eq!(again.high_watermark, second.high_watermark);
    append(&mut disk, &mut recorder, b"live again\n").unwrap();
    assert_eq!(
        page(&mut disk, second.next_cursor, MAX_PAGE_BYTES).unwrap().bytes,
        b"live again\n"
    );
}

#[test]
fn bounded_retention_explicitly_reports_history_gaps() {
    let mut disk = Disk::default();
    let mut recorder =
        drive(&mut disk, |script| Recorder::with_retention(script, "/journal", 8, 2)).unwrap();
    append(&mut disk, &mut recorder, b"0000000011111111222222223333").unwrap();
    let page = page(&mut disk, 0, MAX_PAGE_BYTES).unwrap();
    assert!(page.history_gap);
    assert_eq!(page.earliest_cursor, 16);
    assert_eq!(page.start_cursor, 16);
    assert_eq!(page.next_cursor, 28);
    assert_eq!(page.bytes, b"222222223333");
    assert!(!disk.has(JournalFile::Segment(0)));
    assert!(!disk.has(JournalFile::Segment(1)));
}

#[test]
fn an_unpublished_tail_is_never_replayed() {
    let mut disk = Disk::default();
    let mut recorder = create(&mut disk).unwrap();
    append(&mut disk, &mut recorder, b"committed").unwrap();
    let segment = file_name(JournalFile::Segment(0));
    disk.files.get_mut(&segment).unwrap().extend_from_slice(b"uncommitted");
    assert_eq!(page(&mut disk, 0, MAX_PAGE_BYTES).unwrap().bytes, b"committed");
}

#[test]
fn recorder_cannot_restart_over_existing_incarnation() {
    let mut disk = Disk::default();
    let recorder = create(&mut disk).unwrap();
    drop(recorder);
    assert!(create(&mut disk).is_err());
    assert!(!page(&mut disk, 0, 1).unwrap().closed);
}

#[test]
fn rejects_future_cursors_bad_limits_and_corrupt_manifest() {
    let mut disk = Disk::default();
    let _recorder = create(&mut disk).unwrap();
    let error = page(&mut disk, 1, 1).unwrap_err();
    assert_eq!(error.kind, IoKind::InvalidInput);
    assert_eq!(error.message, "Cursor is ahead of this journal");
    assert_eq!(page(&mut disk, 0, 0).unwrap_err().message, "Invalid output page size");
    assert!(page(&mut disk, 0, MAX_PAGE_BYTES + 1).is_err());
    disk.files.insert("manifest".to_owned(), b"EWJ1 0 64 0 0 0".to_vec());
    let error = page(&mut disk, 0, 1).unwrap_err();
    assert_eq!(error.kind, IoKind::InvalidData);
    assert_eq!(error.message, "Inconsistent journal manifest");
}

#[test]
fn concurrent_reader_sees_consistent_prefixes_during_rotation() {
    let mut disk = Disk::default();
    let mut recorder =
        drive(&mut disk, |script| Recorder::with_retention(script, "/journal", 32, 2)).unwrap();
    let mut cursor = 0;
    for index in 0..128u64 {
        let bytes = vec![(index % 251) as u8];
        drive_with(&mut disk, |script| recorder.append(script, &bytes), |disk| {
            match page(disk, cursor, 9) {
                Ok(page) => {
                    for (index, byte) in page.bytes.iter().enumerate() {
                        assert_eq!(*byte, ((page.start_cursor + index as u64) % 251) as u8);
                    }
                    cursor = page.next_cursor;
                }
                Err(error) => assert_eq!(error.kind, IoKind::WouldBlock),
            }
        })
        .unwrap();
    }
    close(&mut disk, &mut recorder).unwrap();
    let last = page(&mut disk, cursor, 9).unwrap();
    assert!(last.closed);
    assert_eq!(last.next_cursor, 128);
}

#[test]
fn compressed_history_preserves_every_byte_after_hot_retention_expires() {
    let mut disk = Disk::default();
    let mut recorder =
        drive(&mut disk, |script| Recorder::with_configuration(script, "/journal", 16, 2, true))
            .unwrap();
    let expected: Vec<u8> = (0..127u32).map(|index| (index * 13) as u8).collect();
    append(&mut disk, &mut recorder, &expected).unwrap();
    close(&mut disk, &mut recorder).unwrap();
    assert!(!disk.has(JournalFile::Segment(0)));
    assert!(disk.has(JournalFile::Archive(0)));
    let mut actual = Vec::new();
    let mut cursor = 0;
    while cursor < expected.len() as u64 {
        let page = page(&mut disk, cursor, 7).unwrap();
        assert_eq!(page.earliest_cursor, 0);
        assert!(!page.history_gap);
        assert!(page.closed);
        cursor = page.next_cursor;
        actual.extend(page.bytes);
    }
    assert_eq!(actual, expected);
    let actual_storage: u64 = disk
        .files
        .iter()
        .filter(|(name, _)| name.contains(".output"))
        .map(|(_, contents)| contents.len() as u64)
        .sum();
    assert_eq!(
        drive(&mut disk, |script| retained_storage_bytes(script, "/journal")).unwrap(),
        actual_storage
    );
}

#[test]
fn compressed_history_rejects_corruption_and_excessive_expansion() {
    for oversized in [false, true] {
        let mut disk = Disk::default();
        let mut recorder = drive(&mut disk, |script| {
            Recorder::with_configuration(script, "/journal", 16, 1, true)
        })
        .unwrap();
        append(&mut disk, &mut recorder, &[42; 48]).unwrap();
        close(&mut disk, &mut recorder).unwrap();
        let archive = file_name(JournalFile::Archive(0));
        if oversized {
            let mut encoder = GzEncoder::new(Vec::new(), Compression::fast());
            encoder.write_all(&[42; 17]).unwrap();
            disk.files.insert(archive, encoder.finish().unwrap());
        } else {
            disk.files.insert(archive, b"not a gzip stream".to_vec());
        }
        assert!(page(&mut disk, 0, MAX_PAGE_BYTES).is_err());
    }
}

#[test]
fn a_compressed_segment_that_is_too_large_is_not_read() {
    let mut disk = Disk::default();
    let mut recorder =
        drive(&mut disk, |script| Recorder::with_configuration(script, "/journal", 16, 1, true))
            .unwrap();
    append(&mut disk, &mut recorder, &[42; 48]).unwrap();
    disk.files.insert(file_name(JournalFile::Archive(0)), vec![0; 16 * 2 + 512 + 1]);
    let error = page(&mut disk, 0, 1).unwrap_err();
    assert_eq!(error.message, "Oversized compressed journal segment");
}

#[test]
fn default_retention_archives_but_rolling_policy_remains_readable() {
    for policy in [RetentionPolicy::UntilWorkspaceDeleted, RetentionPolicy::Rolling] {
        let mut disk = Disk::default();
        let mut recorder = drive(&mut disk, |script| {
            Recorder::create_with_policy(script, "/journal", policy)
        })
        .unwrap();
        append(&mut disk, &mut recorder, b"retained").unwrap();
        close(&mut disk, &mut recorder).unwrap();
        assert_eq!(
            parse_manifest(&disk.files["manifest"]).unwrap().archive,
            policy == RetentionPolicy::UntilWorkspaceDeleted
        );
        assert_eq!(page(&mut disk, 0, MAX_PAGE_BYTES).unwrap().bytes, b"retained");
    }
    assert_eq!(RetentionPolicy::default(), RetentionPolicy::UntilWorkspaceDeleted);
}

#[test]
fn readers_cross_hot_to_compressed_rotation_without_a_gap() {
    let mut disk = Disk::default();
    let mut recorder =
        drive(&mut disk, |script| Recorder::with_configuration(script, "/journal", 16, 2, true))
            .unwrap();
    let mut cursor = 0;
    for index in 0..128u64 {
        let bytes = vec![(index % 251) as u8];
        drive_with(&mut disk, |script| recorder.append(script, &bytes), |disk| {
            let page = page(disk, cursor, 9).unwrap();
            assert!(!page.history_gap);
            assert_eq!(page.start_cursor, cursor);
            for (offset, byte) in page.bytes.iter().enumerate() {
                assert_eq!(*byte, ((cursor + offset as u64) % 251) as u8);
            }
            cursor = page.next_cursor;
        })
        .unwrap();
    }
    close(&mut disk, &mut recorder).unwrap();
    let last = page(&mut disk, cursor, 9).unwrap();
    assert!(last.closed);
    assert_eq!(last.next_cursor, 128);
}

#[test]
fn whatever_call_the_recorder_stops_at_everything_published_is_readable() {
    for archive in [false, true] {
        let mut disk = Disk::default();
        let mut recorder = drive(&mut disk, |script| {
            Recorder::with_configuration(script, "/journal", 8, 2, archive)
        })
        .unwrap();
        let before: Vec<u8> = (0..21u8).collect();
        append(&mut disk, &mut recorder, &before).unwrap();
        let more: Vec<u8> = (21..60u8).collect();
        drive_with(&mut disk, |script| recorder.append(script, &more), |disk| {
            let mut cursor = 0;
            loop {
                let page = page(disk, cursor, MAX_PAGE_BYTES).unwrap();
                for (offset, byte) in page.bytes.iter().enumerate() {
                    assert_eq!(*byte as u64, page.start_cursor + offset as u64);
                }
                assert!(page.high_watermark >= 21);
                cursor = page.next_cursor;
                if cursor == page.high_watermark {
                    break;
                }
            }
        })
        .unwrap();
    }
}

#[test]
fn a_manifest_is_published_by_a_rename_after_it_is_durable() {
    let mut disk = Disk::default();
    let _recorder = create(&mut disk).unwrap();
    let text = b"EWJ2 1048576 64 0 0 0 0\n";
    assert_eq!(disk.files["manifest"], text);
    assert_eq!(
        disk.log,
        [
            "MakeDirectory".to_owned(),
            "Create(ManifestPending)".to_owned(),
            format!("Write(ManifestPending, {:?})", text.to_vec()),
            "SyncAll(ManifestPending)".to_owned(),
            "Rename(ManifestPending, Manifest)".to_owned(),
            "SyncDirectory".to_owned(),
        ]
    );
}

#[test]
fn a_manifest_is_read_back_as_it_was_written() {
    let m = parse_manifest(&b"EWJ2 16 4 32 81 1 777\n".to_vec()).unwrap();
    assert_eq!(m.segment_bytes, 16);
    assert_eq!(m.retained_segments, 4);
    assert_eq!(m.first, 32);
    assert_eq!(m.end, 81);
    assert!(m.closed);
    assert!(m.archive);
    assert_eq!(m.archived_bytes, 777);
    let m = parse_manifest(&b"EWJ1 16 4 32 81 0\n".to_vec()).unwrap();
    assert!(!m.closed && !m.archive);
    assert_eq!(m.archived_bytes, 0);
}

#[test]
fn every_defect_of_a_manifest_is_told_apart() {
    for (contents, message) in [
        (&b""[..], "Invalid journal manifest"),
        (b"EWJ3 16 4 32 81 0", "Invalid journal manifest"),
        (b"EWJ1 16 4 32 81 0 7", "Invalid journal manifest"),
        (b"EWJ2 16 4 32 81 0", "Invalid journal manifest"),
        (b"EWJ1 16 4 32 -81 0", "Invalid journal cursor"),
        (b"EWJ1 16 4 32 18446744073709551616 0", "Invalid journal cursor"),
        (b"EWJ2 16 4 32 81 0 x", "Invalid journal cursor"),
        (b"EWJ1 16 4 32 81 2", "Invalid journal EOF"),
        (b"EWJ1 1048577 4 0 0 0", "Inconsistent journal manifest"),
        (b"EWJ1 16 65 0 0 0", "Inconsistent journal manifest"),
        (b"EWJ1 16 4 33 81 0", "Inconsistent journal manifest"),
        (b"EWJ1 16 4 96 81 0", "Inconsistent journal manifest"),
        (b"EWJ1 16 4 0 81 0", "Inconsistent journal manifest"),
        (b"EWJ1 16 4 \xff 81 0", "stream did not contain valid UTF-8"),
    ] {
        let error = parse_manifest(&contents.to_vec()).unwrap_err();
        assert_eq!(error.kind, IoKind::InvalidData);
        assert_eq!(error.message, message, "{contents:?}");
    }
    let error = parse_manifest(&vec![b' '; 257]).unwrap_err();
    assert_eq!(error.message, "Oversized journal manifest");
    // A plus sign and leading zeros are part of a number.
    assert_eq!(parse_manifest(&b"EWJ1 +16 04 0 0 0".to_vec()).unwrap().segment_bytes, 16);
}

#[test]
fn configurations_out_of_bounds_are_refused_without_a_call() {
    for (segment_bytes, retained) in
        [(0, 1), (SEGMENT_BYTES + 1, 1), (1, 0), (1, RETAINED_SEGMENTS + 1)]
    {
        let mut script = Script::new();
        let error =
            Recorder::with_configuration(&mut script, "/journal", segment_bytes, retained, false)
                .unwrap_err();
        assert!(matches!(error, Halt::Failed(error)
            if error.message == "Invalid journal retention configuration"));
        assert_eq!(script.len(), 0);
    }
}

#[test]
fn a_waiting_append_leaves_the_recorder_unchanged() {
    let mut disk = Disk::default();
    let mut recorder = create(&mut disk).unwrap();
    let mut script = Script::new();
    let before = recorder.manifest();
    assert!(matches!(recorder.append(&mut script, &b"x".to_vec()), Err(Halt::Waiting)));
    assert_eq!(recorder.manifest(), before);
    assert_eq!(script.len(), 1);
    append(&mut disk, &mut recorder, b"x").unwrap();
    assert_eq!(recorder.manifest().end, 1);
}

#[test]
fn a_segment_that_leaves_while_it_is_read_is_reported() {
    let mut disk = Disk::default();
    let mut recorder =
        drive(&mut disk, |script| Recorder::with_retention(script, "/journal", 8, 2)).unwrap();
    append(&mut disk, &mut recorder, b"0000000011111111").unwrap();
    disk.files.remove(&file_name(JournalFile::Segment(0)));
    let error = page(&mut disk, 0, 1).unwrap_err();
    assert_eq!(error.kind, IoKind::WouldBlock);
    assert_eq!(error.message, "Output rotated while reading; retry the same cursor");
}

#[test]
fn files_of_a_journal_have_their_own_names() {
    assert_eq!(file_name(JournalFile::Manifest), "manifest");
    assert_eq!(file_name(JournalFile::ManifestPending), "manifest.pending");
    assert_eq!(file_name(JournalFile::FinalizeRequest), "finalize.request");
    assert_eq!(file_name(JournalFile::Segment(255)), "00000000000000ff.output");
    assert_eq!(file_name(JournalFile::Archive(255)), "00000000000000ff.output.gz");
    assert_eq!(
        file_name(JournalFile::ArchivePending(255)),
        "00000000000000ff.output.gz.pending"
    );
}

#[test]
fn a_recorder_is_started_by_its_arguments() {
    let request = |arguments: &[&str]| {
        let list: Vec<String> = arguments.iter().map(|argument| (*argument).to_owned()).collect();
        recorder_arguments(&list)
    };
    assert!(request(&[]).is_none());
    assert!(request(&["--help"]).is_none());
    assert_eq!(
        request(&[RECORDER_ARGUMENT, "/journal"]).unwrap().unwrap(),
        ("/journal".to_owned(), RetentionPolicy::UntilWorkspaceDeleted)
    );
    assert_eq!(
        request(&[RECORDER_ARGUMENT, "/journal", "--bounded-history"]).unwrap().unwrap(),
        ("/journal".to_owned(), RetentionPolicy::Rolling)
    );
    for (arguments, message) in [
        (&[RECORDER_ARGUMENT][..], "Missing journal path"),
        (&[RECORDER_ARGUMENT, "/journal", "--other"], "Unknown journal retention policy"),
        (
            &[RECORDER_ARGUMENT, "journal"],
            "Expected an absolute journal path and optional retention policy",
        ),
        (
            &[RECORDER_ARGUMENT, "/journal", "--bounded-history", "more"],
            "Expected an absolute journal path and optional retention policy",
        ),
    ] {
        assert_eq!(request(arguments).unwrap().unwrap_err().message, message);
    }
}

#[test]
fn nothing_is_recorded_behind_the_published_end() {
    let mut disk = Disk::default();
    let mut recorder = create(&mut disk).unwrap();
    append(&mut disk, &mut recorder, b"all").unwrap();
    close(&mut disk, &mut recorder).unwrap();
    let error = append(&mut disk, &mut recorder, b"more").unwrap_err();
    assert_eq!(error.message, "Cannot append after journal EOF");
    assert_eq!(page(&mut disk, 0, MAX_PAGE_BYTES).unwrap().bytes, b"all");
}

#[test]
fn the_retained_segments_bound_what_is_in_use() {
    let mut disk = Disk::default();
    let mut recorder =
        drive(&mut disk, |script| Recorder::with_retention(script, "/journal", 8, 3)).unwrap();
    for n in 0..100u8 {
        append(&mut disk, &mut recorder, &[n]).unwrap();
        let m = recorder.manifest();
        assert!(m.end - m.first <= 24);
        assert!(m.first == 0 || m.end - m.first >= 16);
    }
}

#[test]
fn two_appends_leave_what_one_append_leaves() {
    for archive in [false, true] {
        let bytes: Vec<u8> = (0..100u8).collect();
        for cut in [0, 1, 8, 15, 16, 17, 99, 100] {
            let mut split = Disk::default();
            let mut whole = Disk::default();
            let make = |disk: &mut Disk| {
                drive(disk, |script| {
                    Recorder::with_configuration(script, "/journal", 16, 2, archive)
                })
                .unwrap()
            };
            let mut one = make(&mut split);
            append(&mut split, &mut one, &bytes[..cut]).unwrap();
            append(&mut split, &mut one, &bytes[cut..]).unwrap();
            let mut other = make(&mut whole);
            append(&mut whole, &mut other, &bytes).unwrap();
            assert_eq!(one.manifest(), other.manifest());
            for cursor in [0, 16, 63, 64, 100, 101] {
                let a = page(&mut split, cursor, 40);
                let b = page(&mut whole, cursor, 40);
                match (a, b) {
                    (Ok(a), Ok(b)) => {
                        assert_eq!(a.bytes, b.bytes);
                        assert_eq!(a.start_cursor, b.start_cursor);
                        assert_eq!(a.earliest_cursor, b.earliest_cursor);
                        assert_eq!(a.high_watermark, 100);
                    }
                    (a, b) => assert!(a.is_err() && b.is_err()),
                }
            }
            let storage = |disk: &mut Disk| {
                drive(disk, |script| retained_storage_bytes(script, "/journal")).unwrap()
            };
            let archives: usize = split
                .files
                .iter()
                .filter(|(name, _)| name.ends_with(".output.gz"))
                .map(|(_, contents)| contents.len())
                .sum();
            let m = one.manifest();
            assert_eq!(storage(&mut split), archives as u64 + m.end - m.first);
            assert_eq!(storage(&mut split), storage(&mut whole));
        }
    }
}

#[test]
fn recent_output_is_read_whatever_the_archives_are_like() {
    let mut disk = Disk::default();
    let mut recorder = drive(&mut disk, |script| {
        Recorder::with_configuration(script, "/journal", 16, 2, true)
    })
    .unwrap();
    let bytes: Vec<u8> = (0..100u8).collect();
    append(&mut disk, &mut recorder, &bytes).unwrap();
    let first = recorder.manifest().first;
    assert_eq!(first, 80);
    for i in 0..5 {
        disk.files.insert(file_name(JournalFile::Archive(i)), vec![0; 16 * 2 + 512 + 1]);
    }
    assert!(page(&mut disk, first - 1, 40).is_err());
    assert_eq!(page(&mut disk, first, 40).unwrap().bytes, bytes[80..]);
}
