use std::collections::{BTreeMap, BTreeSet};
use std::io::{Cursor, Write};

use unzipr::compression::archive::Archive;
use unzipr::compression::entry::{EntrySession, Request, Step, Target};
use unzipr::compression::outcome::{ArchiveTally, Extraction};
use unzipr::compression::{Defect, EntryOutcome, ExtractOpts, ExtractionError};
use zip::write::SimpleFileOptions;
use zip::{AesMode, CompressionMethod, ZipWriter};

const CONTENT: &str = "This is a test file\n";
const CONTENT_SHA256: &str = "c87e2ca771bab6024c269b933389d2a92d4941c848c52f155b9b84e1f109fe35";

/// A file system in memory, with switches that make single operations fail.
#[derive(Default)]
struct MemFs {
    dirs: BTreeSet<String>,
    files: BTreeMap<String, Vec<u8>>,
    writing: Option<String>,
    reading: Option<(String, usize)>,
    requests: Vec<Request>,
    defects: Vec<Defect>,
    digests: Vec<(String, String)>,
    writes: Vec<usize>,
    fail_create_dir: bool,
    fail_create_file: bool,
    fail_write: bool,
    fail_flush: bool,
    fail_reopen: bool,
    fail_read_back: bool,
    corrupt_read_back: bool,
}

fn key(path: &[String]) -> String {
    path.join("/")
}

impl MemFs {
    fn with_dir(mut self, path: &str) -> MemFs {
        self.dirs.insert(path.to_owned());
        self
    }

    fn with_file(mut self, path: &str, content: &[u8]) -> MemFs {
        self.files.insert(path.to_owned(), content.to_vec());
        self
    }

    fn has(&self, path: &str) -> bool {
        path.is_empty() || self.dirs.contains(path) || self.files.contains_key(path)
    }

    fn create_dir_all(&mut self, path: &[String]) -> bool {
        if self.fail_create_dir {
            return false;
        }
        for end in 1..=path.len() {
            let prefix = key(&path[..end]);
            if self.files.contains_key(&prefix) {
                return false;
            }
            self.dirs.insert(prefix);
        }
        true
    }

    fn perform(&mut self, request: Request, session: &EntrySession, block: usize) -> (bool, Vec<u8>) {
        self.requests.push(request);
        let target = key(session.target());
        let parent = key(&session.parent());
        let ok = match request {
            Request::Exists(Target::Entry) => self.has(&target),
            Request::Exists(Target::Parent) => self.has(&parent),
            Request::CreateDirAll(Target::Entry) => self.create_dir_all(session.target()),
            Request::CreateDirAll(Target::Parent) => self.create_dir_all(&session.parent()),
            Request::CreateFile => {
                if self.fail_create_file || !self.has(&parent) || self.dirs.contains(&target) {
                    false
                } else {
                    self.files.insert(target.clone(), Vec::new());
                    self.writing = Some(target);
                    true
                }
            }
            Request::Write => {
                let chunk = session.chunk();
                assert!(!chunk.is_empty() && chunk.len() <= block);
                self.writes.push(chunk.len());
                if self.fail_write {
                    false
                } else {
                    let name = self.writing.clone().unwrap();
                    self.files.get_mut(&name).unwrap().extend_from_slice(chunk);
                    true
                }
            }
            Request::Flush => {
                self.writing = None;
                !self.fail_flush
            }
            Request::Reopen => {
                if self.fail_reopen {
                    false
                } else {
                    self.reading = Some((target, 0));
                    true
                }
            }
            Request::ReadBack => {
                if self.fail_read_back {
                    return (false, Vec::new());
                }
                let (name, position) = self.reading.clone().unwrap();
                let file = &self.files[&name];
                let end = usize::min(file.len(), position + block);
                let mut data = file[position..end].to_vec();
                if self.corrupt_read_back && !data.is_empty() {
                    let last = data.len() - 1;
                    data[last] = b'X';
                }
                self.reading = Some((name, end));
                return (true, data);
            }
        };
        (ok, Vec::new())
    }
}

fn drive(session: &mut EntrySession, fs: &mut MemFs, block: usize) -> EntryOutcome {
    loop {
        match session.step() {
            Step::Finished(outcome) => {
                fs.defects.extend(session.defects().iter().copied());
                if let Some(pair) = session.digests() {
                    fs.digests.push(pair);
                }
                return outcome;
            }
            Step::Ask(request) => {
                let (ok, data) = fs.perform(request, session, block);
                session.advance(ok, &data);
            }
        }
    }
}

fn copy_of(opts: &ExtractOpts) -> ExtractOpts {
    ExtractOpts {
        verify_checksum: opts.verify_checksum,
        zip_root: opts.zip_root.clone(),
        outdir: opts.outdir.clone(),
        zip_path: opts.zip_path.clone(),
        block_size: opts.block_size,
        unwrap: opts.unwrap,
        overwrite: opts.overwrite,
        passwords: opts.passwords.clone(),
    }
}

fn extract(opts: &ExtractOpts, bytes: Vec<u8>, fs: &mut MemFs) -> Result<(), ExtractionError> {
    assert!(opts.is_valid());
    let mut job = Extraction::open(copy_of(opts), bytes)?;
    let mut taken = 0;
    while !job.is_done() {
        assert_eq!(job.position(), taken);
        taken += 1;
        let outcome = match job.begin_next() {
            Ok(mut session) => Some(drive(&mut session, fs, opts.block_size)),
            Err(defect) => {
                fs.defects.push(defect);
                None
            }
        };
        if let Some(outcome) = outcome {
            job.record(outcome);
        }
    }
    assert!(job.position() <= job.count());
    job.finish()
}

fn strings(parts: &[&str]) -> Vec<String> {
    parts.iter().map(|part| (*part).to_owned()).collect()
}

fn opts(block_size: usize, passwords: &[&str]) -> ExtractOpts {
    ExtractOpts {
        verify_checksum: false,
        zip_root: strings(&["tests"]),
        outdir: strings(&["out"]),
        zip_path: strings(&["tests", "demo-206B_20B.zip"]),
        block_size,
        unwrap: true,
        overwrite: false,
        passwords: strings(passwords),
    }
}

fn out_dir() -> MemFs {
    MemFs::default().with_dir("out")
}

/// An archive with the entries given: a name that ends in `/` is a
/// directory.
fn archive_of(entries: &[(&str, &[u8])]) -> Vec<u8> {
    let mut writer = ZipWriter::new(Cursor::new(Vec::new()));
    for (name, content) in entries {
        if name.ends_with('/') {
            writer.add_directory(*name, SimpleFileOptions::default()).unwrap();
        } else {
            writer.start_file(*name, SimpleFileOptions::default()).unwrap();
            writer.write_all(content).unwrap();
        }
    }
    writer.finish().unwrap().into_inner()
}

fn demo_archive() -> Vec<u8> {
    archive_of(&[("demo.txt", CONTENT.as_bytes())])
}

fn aes_archive(name: &str, content: &[u8], password: &str) -> Vec<u8> {
    let mut writer = ZipWriter::new(Cursor::new(Vec::new()));
    let options = SimpleFileOptions::default()
        .compression_method(CompressionMethod::Stored)
        .with_aes_encryption(AesMode::Aes256, password);
    writer.start_file(name, options).unwrap();
    writer.write_all(content).unwrap();
    writer.finish().unwrap().into_inner()
}

/// `demo.txt`, stored and encrypted the traditional way with `P4ssw0rd`.
fn encrypted_demo_archive() -> Vec<u8> {
    vec![
        0x50, 0x4b, 0x03, 0x04, 0x14, 0x00, 0x01, 0x00, 0x00, 0x00, 0x00, 0x60,
        0x21, 0x58, 0x96, 0x1a, 0x69, 0xd0, 0x20, 0x00, 0x00, 0x00, 0x14, 0x00,
        0x00, 0x00, 0x08, 0x00, 0x00, 0x00, 0x64, 0x65, 0x6d, 0x6f, 0x2e, 0x74,
        0x78, 0x74, 0x63, 0x99, 0xd6, 0x3c, 0xb9, 0xd3, 0x09, 0x6d, 0x6a, 0x45,
        0x11, 0xd0, 0x74, 0xfc, 0x44, 0x32, 0x43, 0xab, 0xaa, 0x23, 0x23, 0xf1,
        0xed, 0x99, 0xb0, 0x41, 0xfa, 0xe1, 0x24, 0xe4, 0x0a, 0x33, 0x50, 0x4b,
        0x01, 0x02, 0x14, 0x00, 0x14, 0x00, 0x01, 0x00, 0x00, 0x00, 0x00, 0x60,
        0x21, 0x58, 0x96, 0x1a, 0x69, 0xd0, 0x20, 0x00, 0x00, 0x00, 0x14, 0x00,
        0x00, 0x00, 0x08, 0x00, 0x00, 0x00, 0x00, 0x00, 0x00, 0x00, 0x00, 0x00,
        0x00, 0x00, 0x00, 0x00, 0x00, 0x00, 0x00, 0x00, 0x64, 0x65, 0x6d, 0x6f,
        0x2e, 0x74, 0x78, 0x74, 0x50, 0x4b, 0x05, 0x06, 0x00, 0x00, 0x00, 0x00,
        0x01, 0x00, 0x01, 0x00, 0x36, 0x00, 0x00, 0x00, 0x46, 0x00, 0x00, 0x00,
        0x00, 0x00,
    ]
}

/// One entry that claims to be encrypted with AES-256 and to have five
/// bytes of compressed data: less than AES puts around any data.
fn short_aes_archive() -> Vec<u8> {
    vec![
        0x50, 0x4b, 0x03, 0x04, 0x33, 0x00, 0x01, 0x00, 0x63, 0x00, 0x00, 0x60,
        0x21, 0x58, 0x00, 0x00, 0x00, 0x00, 0x05, 0x00, 0x00, 0x00, 0x00, 0x00,
        0x00, 0x00, 0x09, 0x00, 0x0b, 0x00, 0x73, 0x68, 0x6f, 0x72, 0x74, 0x2e,
        0x62, 0x69, 0x6e, 0x01, 0x99, 0x07, 0x00, 0x02, 0x00, 0x41, 0x45, 0x03,
        0x00, 0x00, 0x01, 0x02, 0x03, 0x04, 0x05, 0x50, 0x4b, 0x01, 0x02, 0x33,
        0x00, 0x33, 0x00, 0x01, 0x00, 0x63, 0x00, 0x00, 0x60, 0x21, 0x58, 0x00,
        0x00, 0x00, 0x00, 0x05, 0x00, 0x00, 0x00, 0x00, 0x00, 0x00, 0x00, 0x09,
        0x00, 0x0b, 0x00, 0x00, 0x00, 0x00, 0x00, 0x00, 0x00, 0x00, 0x00, 0x00,
        0x00, 0x00, 0x00, 0x00, 0x00, 0x73, 0x68, 0x6f, 0x72, 0x74, 0x2e, 0x62,
        0x69, 0x6e, 0x01, 0x99, 0x07, 0x00, 0x02, 0x00, 0x41, 0x45, 0x03, 0x00,
        0x00, 0x50, 0x4b, 0x05, 0x06, 0x00, 0x00, 0x00, 0x00, 0x01, 0x00, 0x01,
        0x00, 0x42, 0x00, 0x00, 0x00, 0x37, 0x00, 0x00, 0x00, 0x00, 0x00,
    ]
}

#[test]
fn smoke_test() {
    let mut fs = out_dir();
    extract(&opts(206, &[]), demo_archive(), &mut fs).unwrap();
}

#[test]
fn verify_extracted_size() {
    let mut fs = out_dir();
    extract(&opts(7, &[]), demo_archive(), &mut fs).unwrap();
    assert_eq!(fs.files["out/demo.txt"].len(), 20, "extracted file exists");
}

#[test]
fn extraction_verify_extracted_content() {
    let mut fs = out_dir();
    extract(&opts(333, &[]), demo_archive(), &mut fs).unwrap();
    let text = String::from_utf8(fs.files["out/demo.txt"].clone()).unwrap();
    assert_eq!(text, "This is a test file\n", "Extracted content doesn't match");
}

#[test]
fn decryption_verify_extracted_content() {
    let mut fs = out_dir();
    extract(&opts(333, &["Wr0ng", "P4ssw0rd"]), encrypted_demo_archive(), &mut fs).unwrap();
    let text = String::from_utf8(fs.files["out/demo.txt"].clone()).unwrap();
    assert_eq!(text, "This is a test file\n", "Extracted content doesn't match");
}

#[test]
fn chunks_follow_the_block_size() {
    let mut fs = out_dir();
    extract(&opts(7, &[]), demo_archive(), &mut fs).unwrap();
    assert_eq!(fs.writes.iter().sum::<usize>(), 20);
    assert!(fs.writes.iter().all(|len| (1..=7).contains(len)));
    assert_eq!(
        fs.requests.first().copied(),
        Some(Request::Exists(Target::Entry))
    );
    assert_eq!(fs.requests.last().copied(), Some(Request::Flush));
}

#[test]
fn block_size_does_not_change_the_result() {
    for verify in [false, true] {
        for block in [1usize, 7, 333, 1_000_000] {
            let mut fs = out_dir();
            let mut options = opts(block, &["Wr0ng", "P4ssw0rd"]);
            options.verify_checksum = verify;
            assert_eq!(extract(&options, demo_archive(), &mut fs), Ok(()));
            assert_eq!(fs.files["out/demo.txt"], CONTENT.as_bytes());
            let mut fs = out_dir();
            assert_eq!(extract(&options, encrypted_demo_archive(), &mut fs), Ok(()));
            assert_eq!(fs.files["out/demo.txt"], CONTENT.as_bytes());
            assert!(fs.defects.is_empty());
        }
    }
}

#[test]
fn verified_extraction_round_trips() {
    let big: Vec<u8> = (0..100_000u32).map(|i| (i % 251) as u8).collect();
    for block in [1usize, 7, 4096] {
        let mut fs = out_dir();
        let mut options = opts(block, &[]);
        options.verify_checksum = true;
        let bytes = archive_of(&[("demo.txt", CONTENT.as_bytes()), ("big.bin", &big)]);
        assert_eq!(extract(&options, bytes, &mut fs), Ok(()));
        assert_eq!(fs.files["out/demo.txt"], CONTENT.as_bytes());
        assert_eq!(fs.files["out/big.bin"], big);
        assert_eq!(fs.digests.len(), 2);
        assert_eq!(fs.digests[0].0, CONTENT_SHA256);
        assert_eq!(fs.digests[0].1, CONTENT_SHA256);
        assert_eq!(fs.digests[1].0, fs.digests[1].1);
        assert_ne!(fs.digests[1].0, CONTENT_SHA256);
    }
}

#[test]
fn rejected_passwords_are_skipped() {
    let bytes = aes_archive("demo.txt", CONTENT.as_bytes(), "correct");
    let mut both = out_dir();
    assert_eq!(extract(&opts(7, &["wrong", "correct"]), bytes.clone(), &mut both), Ok(()));
    let mut alone = out_dir();
    assert_eq!(extract(&opts(7, &["correct"]), bytes, &mut alone), Ok(()));
    assert_eq!(both.files, alone.files);
    assert_eq!(both.files["out/demo.txt"], CONTENT.as_bytes());
}

#[test]
fn no_matching_password_is_partial() {
    let mut fs = out_dir();
    let result = extract(&opts(7, &["wrong1", "wrong2"]), encrypted_demo_archive(), &mut fs);
    assert_eq!(result, Err(ExtractionError::Partial));
    assert_eq!(fs.defects, vec![Defect::WrongPasswords]);
    assert!(fs.files.is_empty());
    assert!(fs.requests.is_empty());
}

#[test]
fn no_password_at_all_is_partial() {
    let mut fs = out_dir();
    let result = extract(&opts(7, &[]), encrypted_demo_archive(), &mut fs);
    assert_eq!(result, Err(ExtractionError::Partial));
    assert_eq!(fs.defects, vec![Defect::NoPassword]);
    assert!(fs.files.is_empty());
}

#[test]
fn an_aes_entry_without_room_is_opened_by_no_password() {
    let mut archive = Archive::open(short_aes_archive()).unwrap();
    assert_eq!(archive.len(), 1);
    assert!(!archive.can_decrypt(0));
    assert!(!archive.try_password(0, "P4ssw0rd"));
    assert!(!archive.can_decrypt(1));
    let mut fs = out_dir();
    let result = extract(&opts(7, &["Wr0ng", "P4ssw0rd"]), short_aes_archive(), &mut fs);
    assert_eq!(result, Err(ExtractionError::Partial));
    assert_eq!(fs.defects, vec![Defect::WrongPasswords]);
    assert!(fs.requests.is_empty());
}

#[test]
fn entries_with_room_can_be_tried() {
    let mut plain = Archive::open(demo_archive()).unwrap();
    assert!(plain.can_decrypt(0));
    let mut traditional = Archive::open(encrypted_demo_archive()).unwrap();
    assert!(traditional.can_decrypt(0));
    assert!(traditional.try_password(0, "P4ssw0rd"));
    assert!(!traditional.try_password(0, "Wr0ng"));
    for (mode, content) in [
        (AesMode::Aes128, &b""[..]),
        (AesMode::Aes128, &b"x"[..]),
        (AesMode::Aes192, &b"xy"[..]),
        (AesMode::Aes256, &b""[..]),
    ] {
        let mut writer = ZipWriter::new(Cursor::new(Vec::new()));
        let options = SimpleFileOptions::default()
            .compression_method(CompressionMethod::Stored)
            .with_aes_encryption(mode, "secret");
        writer.start_file("tiny.bin", options).unwrap();
        writer.write_all(content).unwrap();
        let bytes = writer.finish().unwrap().into_inner();
        let mut archive = Archive::open(bytes.clone()).unwrap();
        assert!(archive.can_decrypt(0));
        assert!(archive.try_password(0, "secret"));
        let mut fs = out_dir();
        let mut options = opts(3, &["secret"]);
        options.verify_checksum = true;
        assert_eq!(extract(&options, bytes, &mut fs), Ok(()));
        assert_eq!(fs.files["out/tiny.bin"], content);
    }
}

#[test]
fn each_entry_gets_its_own_password() {
    let mut bytes = Vec::new();
    {
        let mut writer = ZipWriter::new(Cursor::new(&mut bytes));
        for (name, password) in [("one.txt", "first"), ("two.txt", "second")] {
            let options = SimpleFileOptions::default()
                .with_aes_encryption(AesMode::Aes128, password);
            writer.start_file(name, options).unwrap();
            writer.write_all(name.as_bytes()).unwrap();
        }
        writer.start_file("open.txt", SimpleFileOptions::default()).unwrap();
        writer.write_all(b"open").unwrap();
        writer.finish().unwrap();
    }
    let mut fs = out_dir();
    assert_eq!(extract(&opts(3, &["second", "first"]), bytes, &mut fs), Ok(()));
    assert_eq!(fs.files["out/one.txt"], b"one.txt");
    assert_eq!(fs.files["out/two.txt"], b"two.txt");
    assert_eq!(fs.files["out/open.txt"], b"open");
}

#[test]
fn existing_files_are_kept_without_overwrite() {
    let mut fs = out_dir().with_file("out/demo.txt", b"old");
    assert_eq!(extract(&opts(7, &[]), demo_archive(), &mut fs), Ok(()));
    assert_eq!(fs.files["out/demo.txt"], b"old");
    assert_eq!(fs.requests, vec![Request::Exists(Target::Entry)]);
    assert!(fs.defects.is_empty());
}

#[test]
fn existing_files_are_replaced_with_overwrite() {
    let mut fs = out_dir().with_file("out/demo.txt", b"old and longer than the new content");
    let mut options = opts(7, &[]);
    options.overwrite = true;
    assert_eq!(extract(&options, demo_archive(), &mut fs), Ok(()));
    assert_eq!(fs.files["out/demo.txt"], CONTENT.as_bytes());
    assert!(!fs.requests.contains(&Request::Exists(Target::Entry)));
}

#[test]
fn a_second_run_skips_every_entry() {
    let mut fs = out_dir();
    let bytes = archive_of(&[("a.txt", b"a"), ("b.txt", b"b")]);
    assert_eq!(extract(&opts(7, &[]), bytes.clone(), &mut fs), Ok(()));
    let before = fs.files.clone();
    fs.requests.clear();
    assert_eq!(extract(&opts(7, &[]), bytes, &mut fs), Ok(()));
    assert_eq!(fs.files, before);
    assert_eq!(
        fs.requests,
        vec![Request::Exists(Target::Entry), Request::Exists(Target::Entry)]
    );
}

#[test]
fn escaping_paths_are_never_written() {
    for name in ["../evil.txt", "a/../../evil.txt", "a/../b.txt", "/etc/passwd"] {
        for overwrite in [false, true] {
            let mut fs = out_dir();
            let mut options = opts(7, &[]);
            options.overwrite = overwrite;
            options.verify_checksum = overwrite;
            let bytes = archive_of(&[(name, b"evil"), ("good.txt", b"good")]);
            assert_eq!(extract(&options, bytes, &mut fs), Err(ExtractionError::Partial));
            assert_eq!(fs.defects, vec![Defect::UnsafePath]);
            assert_eq!(fs.files.len(), 1);
            assert_eq!(fs.files["out/good.txt"], b"good");
        }
    }
}

#[test]
fn directories_and_nested_files_are_created() {
    let mut fs = out_dir();
    let bytes = archive_of(&[("docs/", b""), ("docs/deep/er/file.txt", b"deep"), ("empty/", b"")]);
    assert_eq!(extract(&opts(2, &[]), bytes, &mut fs), Ok(()));
    assert!(fs.dirs.contains("out/docs"));
    assert!(fs.dirs.contains("out/docs/deep/er"));
    assert!(fs.dirs.contains("out/empty"));
    assert_eq!(fs.files["out/docs/deep/er/file.txt"], b"deep");
    assert!(fs.requests.contains(&Request::CreateDirAll(Target::Entry)));
    assert!(fs.requests.contains(&Request::CreateDirAll(Target::Parent)));
}

#[test]
fn the_archive_gets_its_own_directory_unless_unwrapped() {
    let mut options = opts(7, &[]);
    options.zip_root = strings(&["data", "in"]);
    options.zip_path = strings(&["data", "in", "2024", "q1", "demo.tar.zip"]);
    options.outdir = strings(&["mnt", "out"]);
    options.unwrap = false;
    let mut fs = MemFs::default();
    assert_eq!(extract(&options, demo_archive(), &mut fs), Ok(()));
    assert_eq!(fs.files["mnt/out/2024/q1/demo.tar/demo.txt"], CONTENT.as_bytes());
    options.unwrap = true;
    let mut fs = MemFs::default();
    assert_eq!(extract(&options, demo_archive(), &mut fs), Ok(()));
    assert_eq!(fs.files["mnt/out/2024/q1/demo.txt"], CONTENT.as_bytes());
}

#[test]
fn a_refused_write_stops_the_archive() {
    let mut fs = out_dir();
    fs.fail_write = true;
    let bytes = archive_of(&[("a.txt", b"aaaa"), ("b.txt", b"bbbb")]);
    assert_eq!(extract(&opts(2, &[]), bytes, &mut fs), Err(ExtractionError::WriteFailed));
    assert_eq!(fs.writes, vec![2]);
    assert!(!fs.files.contains_key("out/b.txt"));
    assert_eq!(fs.requests.last().copied(), Some(Request::Write));
}

#[test]
fn a_refused_flush_stops_the_archive() {
    let mut fs = out_dir();
    fs.fail_flush = true;
    let bytes = archive_of(&[("a.txt", b"aaaa"), ("b.txt", b"bbbb")]);
    assert_eq!(extract(&opts(2, &[]), bytes, &mut fs), Err(ExtractionError::WriteFailed));
    assert!(!fs.files.contains_key("out/b.txt"));
}

#[test]
fn a_file_that_cannot_be_created_is_a_defect() {
    let mut fs = out_dir();
    fs.fail_create_file = true;
    let bytes = archive_of(&[("a.txt", b"aaaa"), ("b.txt", b"bbbb")]);
    assert_eq!(extract(&opts(2, &[]), bytes, &mut fs), Err(ExtractionError::Partial));
    assert_eq!(fs.defects, vec![Defect::CreateFile, Defect::CreateFile]);
    assert!(fs.writes.is_empty());
}

#[test]
fn a_directory_that_cannot_be_created_is_a_defect() {
    let mut fs = out_dir();
    fs.fail_create_dir = true;
    let bytes = archive_of(&[("docs/", b""), ("docs/a.txt", b"a"), ("b.txt", b"b")]);
    assert_eq!(extract(&opts(2, &[]), bytes, &mut fs), Err(ExtractionError::Partial));
    assert_eq!(
        fs.defects,
        vec![Defect::CreateDir, Defect::CreateDir, Defect::CreateFile]
    );
    assert_eq!(fs.files["out/b.txt"], b"b");
}

#[test]
fn a_changed_file_fails_the_comparison() {
    let mut fs = out_dir();
    fs.corrupt_read_back = true;
    let mut options = opts(64, &[]);
    options.verify_checksum = true;
    assert_eq!(extract(&options, demo_archive(), &mut fs), Err(ExtractionError::Partial));
    assert_eq!(fs.defects, vec![Defect::Checksum]);
    assert_eq!(
        fs.digests,
        vec![(
            CONTENT_SHA256.to_owned(),
            "30ed7d83eb6ac288e3706825c2dc8589912666d3b6edd8c657465fb963e5f121".to_owned()
        )]
    );
    assert_eq!(fs.files["out/demo.txt"], CONTENT.as_bytes());
}

#[test]
fn a_file_that_cannot_be_read_back_is_a_defect() {
    let mut options = opts(64, &[]);
    options.verify_checksum = true;
    let mut fs = out_dir();
    fs.fail_reopen = true;
    assert_eq!(extract(&options, demo_archive(), &mut fs), Err(ExtractionError::Partial));
    assert_eq!(fs.defects, vec![Defect::Reopen]);
    let mut fs = out_dir();
    fs.fail_read_back = true;
    assert_eq!(extract(&options, demo_archive(), &mut fs), Err(ExtractionError::Partial));
    assert_eq!(fs.defects, vec![Defect::ReadBack, Defect::Checksum]);
}

#[test]
fn checksums_are_not_computed_unless_asked() {
    let mut fs = out_dir();
    assert_eq!(extract(&opts(64, &[]), demo_archive(), &mut fs), Ok(()));
    assert!(fs.digests.is_empty());
    assert!(!fs.requests.contains(&Request::Reopen));
}

#[test]
fn damaged_content_is_a_read_defect() {
    let mut bytes = archive_of(&[("demo.txt", &[7u8; 4000])]);
    let mut writer = ZipWriter::new(Cursor::new(Vec::new()));
    let stored = SimpleFileOptions::default().compression_method(CompressionMethod::Stored);
    writer.start_file("demo.txt", stored).unwrap();
    writer.write_all(CONTENT.as_bytes()).unwrap();
    let mut stored_bytes = writer.finish().unwrap().into_inner();
    let at = stored_bytes.windows(4).position(|w| w == b"This").unwrap();
    stored_bytes[at] = b'X';
    let mut fs = out_dir();
    assert_eq!(extract(&opts(5, &[]), stored_bytes, &mut fs), Err(ExtractionError::Partial));
    assert_eq!(fs.defects, vec![Defect::Read]);
    assert_eq!(fs.requests.last().copied(), Some(Request::Flush));
    bytes.truncate(bytes.len() / 2);
    assert_eq!(Archive::open(bytes).err(), Some(ExtractionError::Incompatible));
}

#[test]
fn bytes_that_are_no_archive_are_incompatible() {
    let mut fs = out_dir();
    let result = extract(&opts(7, &[]), b"not an archive at all".to_vec(), &mut fs);
    assert_eq!(result, Err(ExtractionError::Incompatible));
    assert_eq!(Archive::open(Vec::new()).err(), Some(ExtractionError::Incompatible));
    assert!(fs.requests.is_empty());
}

#[test]
fn an_empty_archive_is_complete() {
    let mut fs = out_dir();
    let archive = Archive::open(archive_of(&[])).unwrap();
    assert_eq!(archive.len(), 0);
    assert_eq!(extract(&opts(7, &[]), archive_of(&[]), &mut fs), Ok(()));
    assert!(fs.requests.is_empty());
}

#[test]
fn an_entry_that_does_not_exist_is_unreadable() {
    let mut archive = Archive::open(demo_archive()).unwrap();
    assert_eq!(archive.len(), 1);
    let options = opts(7, &[]);
    assert_eq!(
        EntrySession::begin(&mut archive, &options, 1).err(),
        Some(Defect::Unreadable)
    );
}

#[test]
fn a_session_reports_what_it_is_about() {
    let mut archive = Archive::open(archive_of(&[("docs/", b""), ("docs/a.txt", b"abc")])).unwrap();
    let options = opts(2, &[]);
    {
        let session = EntrySession::begin(&mut archive, &options, 0).unwrap();
        assert!(session.is_dir());
        assert_eq!(session.step(), Step::Ask(Request::CreateDirAll(Target::Entry)));
        assert_eq!(session.target(), &strings(&["out", "docs"]));
        assert_eq!(session.parent(), strings(&["out"]));
        assert!(session.chunk().is_empty());
    }
    let mut session = EntrySession::begin(&mut archive, &options, 1).unwrap();
    assert!(!session.is_dir());
    assert_eq!(session.size(), 3);
    assert_eq!(session.target(), &strings(&["out", "docs", "a.txt"]));
    assert_eq!(session.parent(), strings(&["out", "docs"]));
    assert_eq!(session.step(), Step::Ask(Request::Exists(Target::Entry)));
    assert_eq!(session.progress(), 0);
    session.advance(false, &[]);
    assert_eq!(session.step(), Step::Ask(Request::Exists(Target::Parent)));
    session.advance(true, &[]);
    assert_eq!(session.step(), Step::Ask(Request::CreateFile));
    session.advance(true, &[]);
    assert_eq!(session.step(), Step::Ask(Request::Write));
    assert_eq!(session.chunk(), b"ab");
    assert_eq!(session.progress(), 2);
    session.advance(true, &[]);
    assert_eq!(session.chunk(), b"c");
    assert_eq!(session.progress(), 3);
    session.advance(true, &[]);
    assert_eq!(session.step(), Step::Ask(Request::Flush));
    assert!(session.chunk().is_empty());
    session.advance(true, &[]);
    assert_eq!(session.step(), Step::Finished(EntryOutcome::Extracted));
    session.advance(false, b"ignored");
    assert_eq!(session.step(), Step::Finished(EntryOutcome::Extracted));
    assert!(session.defects().is_empty());
    assert_eq!(session.digests(), None);
}

#[test]
fn progress_starts_again_for_the_read_back() {
    let mut archive = Archive::open(archive_of(&[("a.txt", b"abcde")])).unwrap();
    let mut options = opts(4, &[]);
    options.verify_checksum = true;
    options.overwrite = true;
    let mut session = EntrySession::begin(&mut archive, &options, 0).unwrap();
    assert_eq!(session.step(), Step::Ask(Request::Exists(Target::Parent)));
    session.advance(false, &[]);
    assert_eq!(session.step(), Step::Ask(Request::CreateDirAll(Target::Parent)));
    session.advance(true, &[]);
    assert_eq!(session.step(), Step::Ask(Request::CreateFile));
    session.advance(true, &[]);
    assert_eq!((session.step(), session.progress()), (Step::Ask(Request::Write), 4));
    session.advance(true, &[]);
    assert_eq!((session.step(), session.progress()), (Step::Ask(Request::Write), 5));
    session.advance(true, &[]);
    assert_eq!((session.step(), session.progress()), (Step::Ask(Request::Flush), 5));
    assert_eq!(session.digests(), None);
    session.advance(true, &[]);
    assert_eq!((session.step(), session.progress()), (Step::Ask(Request::Reopen), 5));
    session.advance(true, &[]);
    assert_eq!((session.step(), session.progress()), (Step::Ask(Request::ReadBack), 0));
    session.advance(true, b"abc");
    assert_eq!((session.step(), session.progress()), (Step::Ask(Request::ReadBack), 3));
    session.advance(true, b"de");
    assert_eq!((session.step(), session.progress()), (Step::Ask(Request::ReadBack), 5));
    assert_eq!(session.digests(), None);
    session.advance(true, b"");
    assert_eq!(session.step(), Step::Finished(EntryOutcome::Extracted));
    let digest = "36bbe50ed96841d10443bcb670d6554f0a34b761be67ec9c4a8ad2c0c44ca42c";
    assert_eq!(session.digests(), Some((digest.to_owned(), digest.to_owned())));
}

#[test]
fn options_are_checked() {
    assert!(opts(1, &[]).is_valid());
    assert!(!opts(0, &[]).is_valid());
    let mut options = opts(7, &[]);
    options.zip_path = strings(&["tests"]);
    assert!(!options.is_valid());
    options.zip_path = strings(&["tests", ".."]);
    assert!(!options.is_valid());
    options.zip_path = strings(&["tests", ""]);
    assert!(!options.is_valid());
    options.zip_path = strings(&["tests", "a/b.zip"]);
    assert!(!options.is_valid());
    options.zip_path = strings(&["tests", ".hidden"]);
    assert!(options.is_valid());
}

#[test]
fn errors_have_their_messages() {
    assert_eq!(ExtractionError::UnableToOpenFile.message(), "unable to open archive file");
    assert_eq!(ExtractionError::Incompatible.message(), "incompatible archive");
    assert_eq!(ExtractionError::Partial.message(), "partial extraction");
    assert_eq!(
        ExtractionError::WriteFailed.message(),
        "write failed, this usually means that the drive is full"
    );
    assert!(ExtractionError::WriteFailed.is_fatal());
    assert!(!ExtractionError::Partial.is_fatal());
    assert!(!ExtractionError::Incompatible.is_fatal());
    assert!(!ExtractionError::UnableToOpenFile.is_fatal());
}

#[test]
fn entries_are_taken_up_in_order() {
    let bytes = archive_of(&[("a.txt", b"a"), ("../b.txt", b"b"), ("c.txt", b"c")]);
    let mut job = Extraction::open(opts(7, &[]), bytes).unwrap();
    assert_eq!((job.count(), job.position(), job.is_done()), (3, 0, false));
    assert_eq!(job.finish(), Ok(()));
    {
        let session = job.begin_next().unwrap();
        assert_eq!(session.target(), &strings(&["out", "a.txt"]));
    }
    assert_eq!((job.position(), job.is_done()), (1, false));
    job.record(EntryOutcome::Extracted);
    assert_eq!(job.begin_next().err(), Some(Defect::UnsafePath));
    assert_eq!((job.position(), job.is_done()), (2, false));
    assert_eq!(job.finish(), Err(ExtractionError::Partial));
    {
        let session = job.begin_next().unwrap();
        assert_eq!(session.target(), &strings(&["out", "c.txt"]));
    }
    assert!(!job.is_done());
    job.record(EntryOutcome::Skipped);
    assert_eq!((job.position(), job.is_done()), (3, true));
    assert_eq!(job.finish(), Err(ExtractionError::Partial));
}

#[test]
fn a_refused_write_ends_the_extraction() {
    let bytes = archive_of(&[("a.txt", b"a"), ("b.txt", b"b")]);
    let mut job = Extraction::open(opts(7, &[]), bytes).unwrap();
    assert!(job.begin_next().is_ok());
    job.record(EntryOutcome::Fatal);
    assert_eq!((job.position(), job.is_done()), (1, true));
    assert_eq!(job.finish(), Err(ExtractionError::WriteFailed));
    assert_eq!(
        Extraction::open(opts(7, &[]), b"no archive".to_vec()).err(),
        Some(ExtractionError::Incompatible)
    );
}

#[test]
fn outcomes_add_up() {
    let mut tally = ArchiveTally::new();
    assert_eq!(tally.result(), Ok(()));
    assert!(tally.record(EntryOutcome::Extracted));
    assert!(tally.record(EntryOutcome::Skipped));
    assert_eq!(tally.result(), Ok(()));
    assert!(tally.record(EntryOutcome::Failed));
    assert!(tally.record(EntryOutcome::Extracted));
    assert_eq!(tally.result(), Err(ExtractionError::Partial));
    assert!(!tally.stopped());
    assert!(!tally.record(EntryOutcome::Fatal));
    assert!(tally.stopped());
    assert_eq!(tally.result(), Err(ExtractionError::WriteFailed));
}
