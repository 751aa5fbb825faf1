use file_bundler::builder::destination_path;
use file_bundler::builder::Action;
use file_bundler::builder::ArchiveBuilder;
use file_bundler::builder::BuildError;
use file_bundler::builder::Event;
use file_bundler::builder::Outcome;
use file_bundler::builder::Phase;
use file_bundler::path_set::PathSet;
use file_bundler::traversal::RootProbe;
use file_bundler::traversal::WalkItem;
use file_bundler::writer::ArchiveError;
use std::io::Cursor;
use std::io::Read;
use zip::ZipArchive;

fn unpack(bytes: Vec<u8>) -> Vec<(String, Vec<u8>, Option<u32>)> {
    let mut archive = ZipArchive::new(Cursor::new(bytes)).unwrap();
    let mut entries = Vec::new();
    for i in 0..archive.len() {
        let mut file = archive.by_index(i).unwrap();
        let mut data = Vec::new();
        file.read_to_end(&mut data).unwrap();
        entries.push((file.name().to_string(), data, file.unix_mode()));
    }
    entries
}

fn selection(paths: &[&str]) -> PathSet {
    let mut set = PathSet::new();
    for path in paths.iter() {
        set.add(path);
    }
    set
}

fn opened(paths: &[&str]) -> (ArchiveBuilder, Action) {
    let mut builder = ArchiveBuilder::new(&selection(paths), "output", "backup.zip");
    assert!(matches!(builder.step(Event::Start), Action::CreateDirectory(_)));
    assert!(matches!(
        builder.step(Event::DirectoryReady),
        Action::OpenArchive(_)
    ));
    let action = builder.step(Event::ArchiveOpened);
    (builder, action)
}

fn expect_probe(action: Action, root: &str) {
    match action {
        Action::Probe(path) => assert_eq!(path, root),
        _ => panic!("a probe was expected"),
    }
}

fn expect_read(action: Action, source: &str, content: &str) -> Event {
    match action {
        Action::Read { path, mut buffer } => {
            assert_eq!(path, source);
            assert!(buffer.is_empty());
            buffer.extend_from_slice(content.as_bytes());
            Event::FileRead(buffer)
        }
        _ => panic!("a read was expected"),
    }
}

fn expect_write(action: Action) -> Vec<(String, Vec<u8>, Option<u32>)> {
    match action {
        Action::Write(archive) => unpack(archive.into_bytes()),
        _ => panic!("a write was expected"),
    }
}

fn expect_finish(action: Action) -> Outcome {
    match action {
        Action::Finish(outcome) => outcome,
        _ => panic!("the end was expected"),
    }
}

#[test]
fn empty_selection_is_a_no_op() {
    let mut builder = ArchiveBuilder::new(&PathSet::new(), "output", "backup.zip");
    assert_eq!(builder.phase(), Phase::Idle);
    assert_eq!(expect_finish(builder.step(Event::Start)), Outcome::NothingToDo);
    assert_eq!(builder.phase(), Phase::Done);
    assert_eq!(
        expect_finish(builder.step(Event::DirectoryReady)),
        Outcome::NothingToDo
    );
    assert_eq!(expect_finish(builder.step(Event::Start)), Outcome::NothingToDo);
}

#[test]
fn build_opens_the_destination_first() {
    let mut builder = ArchiveBuilder::new(&selection(&["a.txt"]), "output", "backup.zip");
    match builder.step(Event::Start) {
        Action::CreateDirectory(path) => assert_eq!(path, "output"),
        _ => panic!("the directory was expected first"),
    }
    assert_eq!(builder.phase(), Phase::Opening);
    match builder.step(Event::DirectoryReady) {
        Action::OpenArchive(path) => assert_eq!(path, "output/backup.zip"),
        _ => panic!("the archive file was expected next"),
    }
    assert_eq!(builder.phase(), Phase::Opening);
    expect_probe(builder.step(Event::ArchiveOpened), "a.txt");
    assert_eq!(builder.phase(), Phase::Writing);
}

#[test]
fn single_file_round_trip() {
    let (mut builder, action) = opened(&["a.txt"]);
    expect_probe(action, "a.txt");
    let action = builder.step(Event::Probed(RootProbe::SingleFile));
    let event = expect_read(action, "a.txt", "hello");
    let entries = expect_write(builder.step(event));
    assert_eq!(builder.phase(), Phase::Finalizing);
    assert_eq!(entries.len(), 1);
    assert_eq!(entries[0].0, "a.txt");
    assert_eq!(entries[0].1, "hello".as_bytes().to_vec());
    assert_eq!(expect_finish(builder.step(Event::Written)), Outcome::Success);
    assert_eq!(builder.phase(), Phase::Done);
}

#[test]
fn directory_is_flattened_under_its_own_name() {
    let (mut builder, action) = opened(&["project"]);
    expect_probe(action, "project");
    let walk = RootProbe::Directory(vec![
        WalkItem::Directory("project".to_string()),
        WalkItem::Directory("project/src".to_string()),
        WalkItem::RegularFile("project/src/main.ext".to_string()),
        WalkItem::RegularFile("project/README".to_string()),
    ]);
    let action = builder.step(Event::Probed(walk));
    let event = expect_read(action, "project/src/main.ext", "X");
    let action = builder.step(event);
    let event = expect_read(action, "project/README", "Y");
    let entries = expect_write(builder.step(event));
    assert_eq!(entries.len(), 2);
    assert_eq!(entries[0].0, "project/src/main.ext");
    assert_eq!(entries[0].1, "X".as_bytes().to_vec());
    assert_eq!(entries[1].0, "project/README");
    assert_eq!(entries[1].1, "Y".as_bytes().to_vec());
    assert_eq!(expect_finish(builder.step(Event::Written)), Outcome::Success);
}

#[test]
fn missing_root_is_passed_over() {
    let (mut builder, action) = opened(&["/data/valid.txt", "/data/gone"]);
    expect_probe(action, "/data/valid.txt");
    let action = builder.step(Event::Probed(RootProbe::SingleFile));
    let event = expect_read(action, "/data/valid.txt", "kept");
    expect_probe(builder.step(event), "/data/gone");
    let entries = expect_write(builder.step(Event::Probed(RootProbe::Missing)));
    assert_eq!(entries.len(), 1);
    assert_eq!(entries[0].0, "valid.txt");
    assert_eq!(entries[0].1, "kept".as_bytes().to_vec());
    assert_eq!(expect_finish(builder.step(Event::Written)), Outcome::Success);
}

#[test]
fn missing_root_first_does_not_stop_the_rest() {
    let (mut builder, action) = opened(&["/gone", "/here.txt"]);
    expect_probe(action, "/gone");
    expect_probe(builder.step(Event::Probed(RootProbe::Missing)), "/here.txt");
    assert_eq!(builder.phase(), Phase::Writing);
    let action = builder.step(Event::Probed(RootProbe::SingleFile));
    let event = expect_read(action, "/here.txt", "1");
    let entries = expect_write(builder.step(event));
    assert_eq!(entries.len(), 1);
    assert_eq!(entries[0].0, "here.txt");
}

#[test]
fn unreadable_file_leaves_no_entry() {
    let (mut builder, action) = opened(&["/d"]);
    expect_probe(action, "/d");
    let walk = RootProbe::Directory(vec![
        WalkItem::RegularFile("/d/locked".to_string()),
        WalkItem::RegularFile("/d/open".to_string()),
    ]);
    let action = builder.step(Event::Probed(walk));
    let event = match action {
        Action::Read { path, mut buffer } => {
            assert_eq!(path, "/d/locked");
            buffer.extend_from_slice("half".as_bytes());
            Event::FileUnreadable(buffer)
        }
        _ => panic!("a read was expected"),
    };
    let action = builder.step(event);
    assert_eq!(builder.phase(), Phase::Writing);
    let event = expect_read(action, "/d/open", "whole");
    let entries = expect_write(builder.step(event));
    assert_eq!(entries.len(), 1);
    assert_eq!(entries[0].0, "d/open");
    assert_eq!(entries[0].1, "whole".as_bytes().to_vec());
}

#[test]
fn entries_of_a_build_carry_the_fixed_permissions() {
    let (mut builder, action) = opened(&["/p/tool.sh", "/p/notes"]);
    expect_probe(action, "/p/tool.sh");
    let action = builder.step(Event::Probed(RootProbe::SingleFile));
    let event = expect_read(action, "/p/tool.sh", "#!/bin/sh");
    expect_probe(builder.step(event), "/p/notes");
    let walk = RootProbe::Directory(vec![WalkItem::RegularFile("/p/notes/n".to_string())]);
    let action = builder.step(Event::Probed(walk));
    let event = expect_read(action, "/p/notes/n", "n");
    let entries = expect_write(builder.step(event));
    assert_eq!(entries.len(), 2);
    for entry in entries.iter() {
        assert_eq!(entry.2.map(|mode| mode & 0o777), Some(0o755));
    }
}

#[test]
fn colliding_name_keeps_the_first_entry() {
    let (mut builder, action) = opened(&["/a/x.txt", "/b/x.txt"]);
    expect_probe(action, "/a/x.txt");
    let action = builder.step(Event::Probed(RootProbe::SingleFile));
    let event = expect_read(action, "/a/x.txt", "from a");
    expect_probe(builder.step(event), "/b/x.txt");
    let action = builder.step(Event::Probed(RootProbe::SingleFile));
    let event = expect_read(action, "/b/x.txt", "from b");
    let entries = expect_write(builder.step(event));
    assert_eq!(entries.len(), 1);
    assert_eq!(entries[0].0, "x.txt");
    assert_eq!(entries[0].1, "from a".as_bytes().to_vec());
    assert_eq!(expect_finish(builder.step(Event::Written)), Outcome::Success);
}

#[test]
fn empty_directory_gives_an_empty_archive() {
    let (mut builder, action) = opened(&["/empty"]);
    expect_probe(action, "/empty");
    let walk = RootProbe::Directory(vec![WalkItem::Directory("/empty".to_string())]);
    let entries = expect_write(builder.step(Event::Probed(walk)));
    assert!(entries.is_empty());
    assert_eq!(expect_finish(builder.step(Event::Written)), Outcome::Success);
}

#[test]
fn directory_that_cannot_be_created_fails_the_build() {
    let mut builder = ArchiveBuilder::new(&selection(&["a"]), "output", "backup.zip");
    builder.step(Event::Start);
    let outcome = expect_finish(builder.step(Event::DirectoryFailed("denied".to_string())));
    assert_eq!(
        outcome,
        Outcome::Failure(BuildError::CreateDirectory("denied".to_string()))
    );
    assert_eq!(builder.phase(), Phase::Failed);
}

#[test]
fn archive_that_cannot_be_opened_fails_the_build() {
    let mut builder = ArchiveBuilder::new(&selection(&["a"]), "output", "backup.zip");
    builder.step(Event::Start);
    builder.step(Event::DirectoryReady);
    let outcome = expect_finish(builder.step(Event::OpenFailed("read-only".to_string())));
    assert_eq!(
        outcome,
        Outcome::Failure(BuildError::OpenArchive("read-only".to_string()))
    );
    assert_eq!(builder.phase(), Phase::Failed);
}

#[test]
fn archive_that_cannot_be_written_fails_the_build() {
    let (mut builder, _) = opened(&["/gone"]);
    expect_write(builder.step(Event::Probed(RootProbe::Missing)));
    let outcome = expect_finish(builder.step(Event::WriteFailed("disk full".to_string())));
    assert_eq!(
        outcome,
        Outcome::Failure(BuildError::Finalize("disk full".to_string()))
    );
    assert_eq!(builder.phase(), Phase::Failed);
}

#[test]
fn finished_build_repeats_its_outcome() {
    let (mut builder, _) = opened(&["/gone"]);
    builder.step(Event::Probed(RootProbe::Missing));
    assert_eq!(expect_finish(builder.step(Event::Written)), Outcome::Success);
    assert_eq!(expect_finish(builder.step(Event::Start)), Outcome::Success);
    assert_eq!(
        expect_finish(builder.step(Event::WriteFailed("late".to_string()))),
        Outcome::Success
    );
    assert_eq!(builder.phase(), Phase::Done);
}

#[test]
fn event_out_of_turn_fails_the_build() {
    let mut builder = ArchiveBuilder::new(&selection(&["a"]), "output", "backup.zip");
    assert_eq!(
        expect_finish(builder.step(Event::Written)),
        Outcome::Failure(BuildError::Protocol)
    );
    assert_eq!(builder.phase(), Phase::Failed);

    let (mut builder, _) = opened(&["a"]);
    assert_eq!(
        expect_finish(builder.step(Event::FileRead(Vec::new()))),
        Outcome::Failure(BuildError::Protocol)
    );

    let (mut builder, _) = opened(&["a"]);
    builder.step(Event::Probed(RootProbe::SingleFile));
    assert_eq!(
        expect_finish(builder.step(Event::Probed(RootProbe::Missing))),
        Outcome::Failure(BuildError::Protocol)
    );
}

#[test]
fn later_changes_to_the_selection_do_not_reach_the_build() {
    let mut set = selection(&["one"]);
    let mut builder = ArchiveBuilder::new(&set, "output", "backup.zip");
    set.add("two");
    builder.step(Event::Start);
    builder.step(Event::DirectoryReady);
    expect_probe(builder.step(Event::ArchiveOpened), "one");
    expect_write(builder.step(Event::Probed(RootProbe::Missing)));
}

#[test]
fn destination_joins_directory_and_name() {
    assert_eq!(destination_path("output", "backup.zip"), "output/backup.zip");
    assert_eq!(destination_path("output/", "backup.zip"), "output/backup.zip");
    assert_eq!(destination_path("", "backup.zip"), "backup.zip");
    assert_eq!(destination_path("/", "backup.zip"), "/backup.zip");
    assert_eq!(destination_path("/var/out", "b.zip"), "/var/out/b.zip");
}

#[test]
fn opening_takes_the_directory_before_the_archive() {
    let mut builder = ArchiveBuilder::new(&selection(&["a"]), "output", "backup.zip");
    builder.step(Event::Start);
    assert_eq!(
        expect_finish(builder.step(Event::ArchiveOpened)),
        Outcome::Failure(BuildError::Protocol)
    );
    assert_eq!(builder.phase(), Phase::Failed);

    let mut builder = ArchiveBuilder::new(&selection(&["a"]), "output", "backup.zip");
    builder.step(Event::Start);
    assert_eq!(
        expect_finish(builder.step(Event::OpenFailed("early".to_string()))),
        Outcome::Failure(BuildError::Protocol)
    );

    let mut builder = ArchiveBuilder::new(&selection(&["a"]), "output", "backup.zip");
    builder.step(Event::Start);
    builder.step(Event::DirectoryReady);
    assert_eq!(
        expect_finish(builder.step(Event::DirectoryReady)),
        Outcome::Failure(BuildError::Protocol)
    );

    let mut builder = ArchiveBuilder::new(&selection(&["a"]), "output", "backup.zip");
    builder.step(Event::Start);
    builder.step(Event::DirectoryReady);
    assert_eq!(
        expect_finish(builder.step(Event::DirectoryFailed("late".to_string()))),
        Outcome::Failure(BuildError::Protocol)
    );
}

#[test]
fn refused_store_is_passed_over() {
    let (mut builder, action) = opened(&["/a.txt", "/b.txt"]);
    expect_probe(action, "/a.txt");
    let action = builder.step(Event::Probed(RootProbe::SingleFile));
    assert!(matches!(action, Action::Read { .. }));
    let action = builder.after_store(Err(ArchiveError::Rejected("refused".to_string())));
    assert_eq!(builder.phase(), Phase::Writing);
    expect_probe(action, "/b.txt");
    let action = builder.step(Event::Probed(RootProbe::SingleFile));
    let event = expect_read(action, "/b.txt", "kept");
    let entries = expect_write(builder.step(event));
    assert_eq!(entries.len(), 1);
    assert_eq!(entries[0].0, "b.txt");
    assert_eq!(entries[0].1, "kept".as_bytes().to_vec());
    assert_eq!(expect_finish(builder.step(Event::Written)), Outcome::Success);
}

#[test]
fn every_read_file_gets_its_entry_in_selection_order() {
    let (mut builder, action) = opened(&["/t/long.txt", "/t/s.txt"]);
    expect_probe(action, "/t/long.txt");
    let action = builder.step(Event::Probed(RootProbe::SingleFile));
    let event = expect_read(action, "/t/long.txt", "abcdef");
    expect_probe(builder.step(event), "/t/s.txt");
    let action = builder.step(Event::Probed(RootProbe::SingleFile));
    let event = expect_read(action, "/t/s.txt", "xy");
    let entries = expect_write(builder.step(event));
    assert_eq!(entries.len(), 2);
    assert_eq!(entries[0].0, "long.txt");
    assert_eq!(entries[0].1, "abcdef".as_bytes().to_vec());
    assert_eq!(entries[1].0, "s.txt");
    assert_eq!(entries[1].1, "xy".as_bytes().to_vec());
}
