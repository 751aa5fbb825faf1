use file_bundler::writer::ArchiveError;
use file_bundler::writer::ArchiveWriter;
use file_bundler::writer::ENTRY_PERMISSIONS;
use std::io::Cursor;
use std::io::Read;
use zip::CompressionMethod;
use zip::ZipArchive;

fn unpack(bytes: Vec<u8>) -> Vec<(String, Vec<u8>, Option<u32>, CompressionMethod)> {
    let mut archive = ZipArchive::new(Cursor::new(bytes)).unwrap();
    let mut entries = Vec::new();
    for i in 0..archive.len() {
        let mut file = archive.by_index(i).unwrap();
        let mut data = Vec::new();
        file.read_to_end(&mut data).unwrap();
        entries.push((
            file.name().to_string(),
            data,
            file.unix_mode(),
            file.compression(),
        ));
    }
    entries
}

#[test]
fn round_trip_of_one_file() {
    let mut writer = ArchiveWriter::open();
    assert!(writer.store("a.txt", "hello".as_bytes()).is_ok());
    let bytes = writer.finalize().unwrap().into_bytes();
    let entries = unpack(bytes);
    assert_eq!(entries.len(), 1);
    assert_eq!(entries[0].0, "a.txt");
    assert_eq!(entries[0].1, "hello".as_bytes().to_vec());
}

#[test]
fn every_entry_carries_the_fixed_permissions() {
    assert_eq!(ENTRY_PERMISSIONS, 0o755);
    let mut writer = ArchiveWriter::open();
    writer.store("one", &[1, 2, 3]).unwrap();
    writer.store("dir/two", &[]).unwrap();
    writer.store("dir/sub/three", &[9; 5000]).unwrap();
    let entries = unpack(writer.finalize().unwrap().into_bytes());
    assert_eq!(entries.len(), 3);
    for entry in entries.iter() {
        assert_eq!(entry.2.map(|mode| mode & 0o777), Some(0o755));
        assert_eq!(entry.3, CompressionMethod::Deflated);
    }
    assert_eq!(entries[2].0, "dir/sub/three");
    assert_eq!(entries[2].1, vec![9u8; 5000]);
}

#[test]
fn empty_archive_lists_nothing() {
    let writer = ArchiveWriter::open();
    let bytes = writer.finalize().unwrap().into_bytes();
    assert!(!bytes.is_empty());
    assert!(unpack(bytes).is_empty());
}

#[test]
fn entries_come_out_in_the_order_stored() {
    let mut writer = ArchiveWriter::open();
    writer.store("z", &[1]).unwrap();
    writer.store("a", &[2]).unwrap();
    writer.store("m", &[3]).unwrap();
    let entries = unpack(writer.finalize().unwrap().into_bytes());
    let names: Vec<&str> = entries.iter().map(|entry| entry.0.as_str()).collect();
    assert_eq!(names, vec!["z", "a", "m"]);
    assert_eq!(entries[1].1, vec![2u8]);
}

#[test]
fn second_entry_of_a_name_is_refused() {
    let mut writer = ArchiveWriter::open();
    writer.store("same", &[1, 1]).unwrap();
    let refused = writer.store("same", &[2, 2]);
    match refused {
        Err(ArchiveError::Rejected(why)) => assert!(why.contains("Duplicate filename")),
        _ => panic!("a duplicate name was not refused"),
    }
    writer.store("other", &[3]).unwrap();
    let entries = unpack(writer.finalize().unwrap().into_bytes());
    assert_eq!(entries.len(), 2);
    assert_eq!(entries[0].0, "same");
    assert_eq!(entries[0].1, vec![1u8, 1]);
    assert_eq!(entries[1].0, "other");
}

#[test]
fn overlong_name_is_refused_up_front() {
    let mut writer = ArchiveWriter::open();
    let longest = "n".repeat(65535);
    let too_long = "n".repeat(65536);
    assert!(matches!(
        writer.start_entry(&too_long),
        Err(ArchiveError::NameTooLong)
    ));
    assert!(matches!(
        writer.store(&too_long, &[1]),
        Err(ArchiveError::NameTooLong)
    ));
    assert!(writer.store(&longest, &[1]).is_ok());
    let entries = unpack(writer.finalize().unwrap().into_bytes());
    assert_eq!(entries.len(), 1);
    assert_eq!(entries[0].0.len(), 65535);
}

#[test]
fn bytes_need_an_open_entry() {
    let mut writer = ArchiveWriter::open();
    assert!(matches!(
        writer.write_all(&[1, 2]),
        Err(ArchiveError::NoOpenEntry)
    ));
    assert!(matches!(writer.write_all(&[]), Err(ArchiveError::NoOpenEntry)));
    writer.start_entry("e").unwrap();
    assert!(writer.write_all(&[1, 2]).is_ok());
    let entries = unpack(writer.finalize().unwrap().into_bytes());
    assert_eq!(entries.len(), 1);
    assert_eq!(entries[0].1, vec![1u8, 2]);
}

#[test]
fn writes_append_to_the_open_entry() {
    let mut writer = ArchiveWriter::open();
    writer.start_entry("parts").unwrap();
    writer.write_all("ab".as_bytes()).unwrap();
    writer.write_all("".as_bytes()).unwrap();
    writer.write_all("cd".as_bytes()).unwrap();
    writer.start_entry("next").unwrap();
    writer.write_all("e".as_bytes()).unwrap();
    let entries = unpack(writer.finalize().unwrap().into_bytes());
    assert_eq!(entries.len(), 2);
    assert_eq!(entries[0].1, "abcd".as_bytes().to_vec());
    assert_eq!(entries[1].1, "e".as_bytes().to_vec());
}

#[test]
fn refused_entry_leaves_the_one_before_closed() {
    let mut writer = ArchiveWriter::open();
    writer.store("first", &[7]).unwrap();
    assert!(writer.start_entry("first").is_err());
    assert!(matches!(
        writer.write_all(&[8]),
        Err(ArchiveError::NoOpenEntry)
    ));
    let entries = unpack(writer.finalize().unwrap().into_bytes());
    assert_eq!(entries.len(), 1);
    assert_eq!(entries[0].1, vec![7u8]);
}

#[test]
fn transfer_buffer_is_lent_empty_every_time() {
    let mut writer = ArchiveWriter::open();
    let mut buffer = writer.lend_buffer();
    assert!(buffer.is_empty());
    buffer.extend_from_slice("first file".as_bytes());
    writer.store_buffer("one", buffer).unwrap();
    let mut buffer = writer.lend_buffer();
    assert!(buffer.is_empty());
    buffer.extend_from_slice("2".as_bytes());
    writer.store_buffer("two", buffer).unwrap();
    let mut buffer = writer.lend_buffer();
    assert!(buffer.is_empty());
    buffer.extend_from_slice("half read".as_bytes());
    writer.return_buffer(buffer);
    assert!(writer.lend_buffer().is_empty());
    let entries = unpack(writer.finalize().unwrap().into_bytes());
    assert_eq!(entries.len(), 2);
    assert_eq!(entries[0].1, "first file".as_bytes().to_vec());
    assert_eq!(entries[1].1, "2".as_bytes().to_vec());
}

#[test]
fn errors_describe_themselves() {
    assert_eq!(ArchiveError::NameTooLong.describe(), "entry name is too long");
    assert_eq!(ArchiveError::NoOpenEntry.describe(), "no entry is open");
    assert_eq!(ArchiveError::Rejected("why".to_string()).describe(), "why");
    assert_eq!(ArchiveError::Write("disk".to_string()).describe(), "disk");
}

#[test]
fn empty_payload_is_stored_whenever_the_entry_opens() {
    let mut writer = ArchiveWriter::open();
    assert!(writer.store("empty", &[]).is_ok());
    assert!(matches!(
        writer.store("empty", &[]),
        Err(ArchiveError::Rejected(_))
    ));
    writer.start_entry("open").unwrap();
    assert!(writer.write_all(&[]).is_ok());
    let entries = unpack(writer.finalize().unwrap().into_bytes());
    assert_eq!(entries.len(), 2);
    assert!(entries[0].1.is_empty());
    assert!(entries[1].1.is_empty());
}

#[test]
fn same_entries_give_the_same_bytes() {
    let mut first = ArchiveWriter::open();
    first.store("a", "one".as_bytes()).unwrap();
    first.store("b/c", &[0; 300]).unwrap();
    let mut second = ArchiveWriter::open();
    second.store("a", "one".as_bytes()).unwrap();
    second.store("b/c", &[0; 300]).unwrap();
    let first = first.finalize().unwrap().into_bytes();
    let second = second.finalize().unwrap().into_bytes();
    assert!(first.len() > 22);
    assert_eq!(first, second);
    let mut third = ArchiveWriter::open();
    third.store("a", "two".as_bytes()).unwrap();
    third.store("b/c", &[0; 300]).unwrap();
    assert_ne!(first, third.finalize().unwrap().into_bytes());
}
