//! Archives that lie in memory.

use std::io::{Cursor, Write};

use sheepit_client::archive::{Unpacked, UnpackFailure};
use sheepit_client::files::{EntryStep, unzipMem};
use zip::unstable::write::FileOptionsExt;
use zip::write::FileOptions;
use zip::{CompressionMethod, ZipWriter};

struct Entry {
    name: &'static str,
    flags: u16,
    method: u16,
    crc: u32,
    extra: Vec<u8>,
    data: Vec<u8>,
}

fn stored(name: &'static str, crc: u32, data: &[u8]) -> Entry {
    Entry { name, flags: 0, method: 0, crc, extra: vec![], data: data.to_vec() }
}

/// An entry with a record on AES-128, and nothing but zeros for a salt.
fn aes(flags: u16, method: u8, data: Vec<u8>) -> Entry {
    let extra = vec![0x01, 0x99, 7, 0, 2, 0, 0x41, 0x45, 1, method, 0];
    Entry { name: "f", flags, method: 99, crc: 0, extra, data }
}

/// The salt, what shows that the password is "pw", and ten bytes for the digest.
fn sealed() -> Vec<u8> {
    let mut data = vec![0; 20];
    data[8] = 220;
    data[9] = 24;
    data
}

fn put16(out: &mut Vec<u8>, n: u16) {
    out.extend_from_slice(&n.to_le_bytes());
}

fn put32(out: &mut Vec<u8>, n: u32) {
    out.extend_from_slice(&n.to_le_bytes());
}

fn pack(entries: &[Entry]) -> Vec<u8> {
    let mut out = vec![];
    let mut directory = vec![];
    for e in entries {
        let start = out.len() as u32;
        put32(&mut out, 0x04034b50);
        put16(&mut out, 20);
        let mut common = vec![];
        put16(&mut common, e.flags);
        put16(&mut common, e.method);
        put32(&mut common, 0);
        put32(&mut common, e.crc);
        put32(&mut common, e.data.len() as u32);
        put32(&mut common, e.data.len() as u32);
        put16(&mut common, e.name.len() as u16);
        out.extend_from_slice(&common);
        put16(&mut out, 0);
        out.extend_from_slice(e.name.as_bytes());
        out.extend_from_slice(&e.data);
        put32(&mut directory, 0x02014b50);
        put16(&mut directory, 20);
        put16(&mut directory, 20);
        directory.extend_from_slice(&common);
        put16(&mut directory, e.extra.len() as u16);
        put16(&mut directory, 0);
        put32(&mut directory, 0);
        put32(&mut directory, 0);
        put32(&mut directory, start);
        directory.extend_from_slice(e.name.as_bytes());
        directory.extend_from_slice(&e.extra);
    }
    let start = out.len() as u32;
    out.extend_from_slice(&directory);
    put32(&mut out, 0x06054b50);
    put32(&mut out, 0);
    put16(&mut out, entries.len() as u16);
    put16(&mut out, entries.len() as u16);
    put32(&mut out, directory.len() as u32);
    put32(&mut out, start);
    put16(&mut out, 0);
    out
}

fn first(bytes: &[u8], password: Option<&[u8]>) -> Result<Unpacked, UnpackFailure> {
    unzipMem(bytes, password).map_err(UnpackFailure::Failed).unwrap().next().unwrap()
}

fn failure(bytes: &[u8], password: Option<&[u8]>) -> UnpackFailure {
    first(bytes, password).unwrap_err()
}

#[test]
fn an_archive_in_memory_is_unpacked() {
    let mut writer = ZipWriter::new(Cursor::new(vec![]));
    let packed = FileOptions::default().compression_method(CompressionMethod::Deflated);
    writer.add_directory("d/", FileOptions::default()).unwrap();
    writer.start_file("d/a.txt", packed).unwrap();
    writer.write_all(&[b'x'; 5000]).unwrap();
    writer.add_directory("d/", FileOptions::default()).unwrap();
    writer.start_file("/up/../b\\c", FileOptions::default()).unwrap();
    writer.write_all(b"hello").unwrap();
    let bytes = writer.finish().unwrap().into_inner();

    let mut unzip = unzipMem(&bytes, None).unwrap();
    let mut got = vec![];
    while let Some(next) = unzip.next() {
        let Unpacked { path, did, content } = next.unwrap();
        got.push((path.pieces.join(" "), did, content));
    }
    assert!(unzip.next().is_none());
    assert_eq!(got.len(), 4);
    assert_eq!(got[0], ("d".to_string(), EntryStep::Create, None));
    assert_eq!(got[1], ("d a.txt".to_string(), EntryStep::Extract, Some(vec![b'x'; 5000])));
    assert_eq!(got[2], ("d".to_string(), EntryStep::Skip, None));
    assert_eq!(got[3], ("up b c".to_string(), EntryStep::Extract, Some(b"hello".to_vec())));
}

#[test]
fn what_is_no_archive() {
    assert_eq!(
        unzipMem(b"", None).err().unwrap(),
        "invalid Zip archive: Invalid zip header"
    );
    assert_eq!(
        unzipMem(&[0; 100], None).err().unwrap(),
        "invalid Zip archive: Could not find central directory end"
    );
    assert!(unzipMem(&pack(&[]), None).unwrap().next().is_none());
}

#[test]
fn a_file_is_checked() {
    let good = pack(&[stored("a\0b", 0xcbf43926, b"123456789")]);
    let got = first(&good, None).unwrap();
    assert_eq!(got.path.pieces, vec!["a"]);
    assert_eq!(got.content.unwrap(), b"123456789");
    let bad = pack(&[stored("n", 7, b"123456789")]);
    assert!(matches!(
        failure(&bad, None),
        UnpackFailure::Content { path, cause } if path.pieces == ["n"] && cause == "Invalid checksum"
    ));
}

#[test]
fn an_entry_cannot_be_opened() {
    let mut odd = stored("a", 0, b"");
    odd.method = 1;
    assert!(matches!(
        failure(&pack(&[odd]), None),
        UnpackFailure::Failed(m) if m == "unsupported Zip archive: Compression method not supported"
    ));
    let mut locked = stored("a/", 0, b"");
    locked.flags = 1;
    assert!(matches!(
        failure(&pack(&[locked]), None),
        UnpackFailure::Failed(m)
            if m == "unsupported Zip archive: Password required to decrypt file"
    ));
    let mut torn = pack(&[stored("a", 0, b"")]);
    torn[0] = 0;
    assert!(matches!(
        failure(&torn, None),
        UnpackFailure::Failed(m) if m == "invalid Zip archive: Invalid local file header"
    ));
}

#[test]
fn a_password_opens_a_file() {
    let mut writer = ZipWriter::new(Cursor::new(vec![]));
    writer.start_file("f", FileOptions::default().with_deprecated_encryption(b"pw")).unwrap();
    writer.write_all(b"hidden").unwrap();
    let bytes = writer.finish().unwrap().into_inner();
    assert_eq!(first(&bytes, Some(b"pw")).unwrap().content.unwrap(), b"hidden");
    assert!(matches!(failure(&bytes, Some(b"no")), UnpackFailure::WrongPassword));
    assert!(matches!(failure(&bytes, None), UnpackFailure::Failed(_)));
    // where none is needed, it plays no part.
    let plain = pack(&[stored("a", 0xcbf43926, b"123456789")]);
    assert_eq!(first(&plain, Some(b"pw")).unwrap().content.unwrap(), b"123456789");
}

#[test]
fn aes_that_fits_and_aes_that_does_not() {
    let whole = pack(&[aes(1, 0, sealed())]);
    assert_eq!(first(&whole, Some(b"pw")).unwrap().content.unwrap(), b"");
    assert!(matches!(failure(&whole, Some(b"no")), UnpackFailure::WrongPassword));
    assert!(matches!(failure(&whole, None), UnpackFailure::Failed(_)));
    // one byte less than the encryption takes.
    let mut short = sealed();
    short.pop();
    assert!(matches!(failure(&pack(&[aes(1, 0, short)]), Some(b"pw")), UnpackFailure::Unopenable));
    // not marked as encrypted.
    let open = pack(&[aes(0, 0, sealed())]);
    assert!(matches!(failure(&open, None), UnpackFailure::Unopenable));
    assert!(matches!(failure(&open, Some(b"pw")), UnpackFailure::WrongPassword));
    // a method that is not known comes first.
    assert!(matches!(failure(&pack(&[aes(0, 1, sealed())]), None), UnpackFailure::Failed(_)));
    // encryption within encryption.
    let twice = pack(&[aes(1, 99, sealed())]);
    assert!(matches!(
        failure(&twice, Some(b"pw")),
        UnpackFailure::Unreadable { path } if path.pieces == ["f"]
    ));
}
