//! Texts, numbers, spans and digests.

use sheepit_client::fmd5::{FileDigest, HashCache, HashNode, checkMd5, hexText};
use sheepit_client::number::{decimal, decimalSigned, readI32, readNat};
use sheepit_client::paths::{PathPieces, extension, fileName};
use sheepit_client::span::{SPAN_MAX, TimeSpan};
use sheepit_client::text::{boolText, glue, glue3, replaceChar, split, startsWith, strEq, trim};
use sheepit_client::utils::{Platform, Warn, blendExe, messageBecause};

#[test]
fn numbers_are_written_and_read_back() {
    for n in [0u64, 7, 10, 65535, 65536, u64::MAX] {
        assert_eq!(decimal(n), n.to_string());
        assert_eq!(readNat(decimal(n).as_str(), u64::MAX), Some(n));
    }
    for n in [0i32, 5, -5, i32::MAX, i32::MIN] {
        assert_eq!(decimalSigned(n), n.to_string());
        assert_eq!(readI32(decimalSigned(n).as_str()), Some(n));
    }
}

#[test]
fn numbers_are_read_strictly() {
    assert_eq!(readNat("", 9), None);
    assert_eq!(readNat("+", 9), None);
    assert_eq!(readNat("+7", 9), Some(7));
    assert_eq!(readNat("0007", 9), Some(7));
    assert_eq!(readNat("10", 9), None);
    assert_eq!(readNat("-0", 9), None);
    assert_eq!(readNat(" 7", 9), None);
    assert_eq!(readI32("-"), None);
    assert_eq!(readI32("2147483648"), None);
    assert_eq!(readI32("-2147483648"), Some(i32::MIN));
    assert_eq!(readI32("-2147483649"), None);
    assert_eq!(readI32("1.0"), None);
}

#[test]
fn texts_are_put_together_and_taken_apart() {
    assert_eq!(glue("a", "b"), "ab");
    assert_eq!(glue3("a", "", "c"), "ac");
    assert!(strEq("\u{e4}", "\u{e4}") && !strEq("a", "ab"));
    assert!(startsWith("abc", "ab") && startsWith("abc", "") && !startsWith("a", "ab"));
    assert_eq!(replaceChar("a/b/c", '/', '\\'), "a\\b\\c");
    assert_eq!(split("a b  c ", ' '), vec!["a", "b", "", "c", ""]);
    assert_eq!(split("", ' '), vec![""]);
    assert_eq!(boolText(true), "true");
    assert_eq!(boolText(false), "false");
}

#[test]
fn whitespace_goes_from_both_ends() {
    assert_eq!(trim(" \t\r\n x y \u{3000}\u{a0}"), "x y");
    assert_eq!(trim(" \u{85} "), "");
    assert_eq!(trim("x"), "x");
    for c in ['\u{200b}', '\u{feff}', '_'] {
        assert_eq!(trim(&format!(" {c} ")), format!("{c}"));
    }
}

#[test]
fn extensions_of_file_names() {
    assert_eq!(extension("a.png").as_deref(), Some("png"));
    assert_eq!(extension("a.tar.gz").as_deref(), Some("gz"));
    assert_eq!(extension("a.").as_deref(), Some(""));
    assert_eq!(extension(".hidden"), None);
    assert_eq!(extension("plain"), None);
    assert_eq!(extension(""), None);
    assert_eq!(extension(".."), None);
    assert_eq!(extension("...").as_deref(), Some(""));
    assert_eq!(fileName(&PathPieces::of("/w").join("a.png")).as_deref(), Some("a.png"));
    assert_eq!(fileName(&PathPieces::of("/w").join("..")), None);
}

#[test]
fn paths_are_joined_piece_by_piece() {
    let p = PathPieces::of("/a").join("b").join("c.txt");
    assert_eq!(p.pieces, vec!["/a", "b", "c.txt"]);
    assert_eq!(p.clone().pieces, p.pieces);
}

#[test]
fn spans_of_time() {
    assert_eq!(TimeSpan::zero().asNanos(), 0);
    assert!(TimeSpan::zero().isZero() && !TimeSpan::fromSecs(1).isZero());
    assert_eq!(TimeSpan::fromSecs(3).asNanos(), 3_000_000_000);
    assert_eq!(TimeSpan::fromNanos(2_999_999_999).unwrap().asSecs(), 2);
    assert!(TimeSpan::fromNanos(SPAN_MAX).is_some());
    assert!(TimeSpan::fromNanos(SPAN_MAX + 1).is_none());
    let most = TimeSpan::fromNanos(SPAN_MAX).unwrap();
    assert!(most.checkedAdd(TimeSpan::fromNanos(1).unwrap()).is_none());
    assert_eq!(TimeSpan::fromSecs(1).checkedAdd(TimeSpan::fromSecs(2)), Some(TimeSpan::fromSecs(3)));
    assert_eq!(TimeSpan::fromSecs(5).saturatingSub(TimeSpan::fromSecs(2)), TimeSpan::fromSecs(3));
    assert_eq!(TimeSpan::fromSecs(2).saturatingSub(TimeSpan::fromSecs(5)), TimeSpan::zero());
    assert_eq!(TimeSpan::fromSecs(2).shorter(TimeSpan::fromSecs(5)), TimeSpan::fromSecs(2));
}

fn taken_in(parts: &[&[u8]]) -> FileDigest {
    let mut content = FileDigest::new();
    for part in parts {
        content.consume(part);
    }
    content
}

#[test]
fn a_digest_does_not_mind_how_the_bytes_come() {
    let whole = taken_in(&[b"hello world"]);
    let parts = taken_in(&[b"hel", b"", b"lo wor", b"ld"]);
    assert_eq!(whole.bytes(), 11);
    assert_eq!(parts.bytes(), 11);
    assert_eq!(hexText(&whole.compute()), "5eb63bbbe01eeed093cb22bb8f5acdc3");
    assert_eq!(hexText(&parts.compute()), "5eb63bbbe01eeed093cb22bb8f5acdc3");
}

#[test]
fn digests_as_text() {
    let digest = [0u8, 1, 15, 16, 127, 128, 255, 0, 1, 2, 3, 4, 5, 6, 7, 0xab];
    assert_eq!(hexText(&digest), "00010f107f80ff0001020304050607ab");
    assert!(checkMd5("00010f107f80ff0001020304050607ab", "f", &digest).is_ok());
    assert_eq!(
        checkMd5("00010F107F80FF0001020304050607AB", "the file", &digest).unwrap_err(),
        "Hashes do not match for the file"
    );
}

#[test]
fn digests_are_remembered_while_a_file_is_unchanged() {
    let mut cache = HashCache::default();
    let path = b"/some/file".to_vec();
    let old = HashNode { modTime: 10, size: 5 };
    let new = HashNode { modTime: 11, size: 5 };
    assert_eq!(cache.lookup(&path, Some(old)), None);
    let digest = cache.computeFileHash(path.clone(), Some(old), taken_in(&[b"hello"]));
    assert_eq!(hexText(&digest), "5d41402abc4b2a76b9719d911017c592");
    assert_eq!(cache.lookup(&path, Some(old)), Some(digest));
    assert_eq!(cache.lookup(&path, Some(new)), None);
    assert_eq!(cache.lookup(&path, None), None);
    assert_eq!(cache.lookup(&b"/other".to_vec(), Some(old)), None);
    cache.record(path.clone(), Some(new), [7; 16]);
    assert_eq!(cache.lookup(&path, Some(old)), None);
    assert_eq!(cache.lookup(&path, Some(new)), Some([7; 16]));
    cache.record(path.clone(), None, [9; 16]);
    assert_eq!(cache.lookup(&path, Some(new)), Some([7; 16]));
}

#[test]
fn the_digest_of_nothing() {
    let mut cache = HashCache::default();
    let digest = cache.computeFileHash(vec![], None, FileDigest::new());
    assert_eq!(hexText(&digest), "d41d8cd98f00b204e9800998ecf8427e");
    assert_eq!(cache.lookup(&vec![], Some(HashNode { modTime: 0, size: 0 })), None);
}

#[test]
fn warnings_and_platforms() {
    let bad: Result<u8, String> = Err("no luck".to_string());
    assert_eq!(bad.warning().as_deref(), Some("Warn: no luck"));
    assert_eq!(bad.warn(), None);
    let good: Result<u8, String> = Ok(3);
    assert_eq!(good.warning(), None);
    assert_eq!(good.warn(), Some(3));
    assert_eq!(messageBecause("It failed", "of that"), "It failed because: of that");
    assert_eq!(blendExe(Platform::Windows), "rend.exe");
    assert_eq!(blendExe(Platform::Macos), "Blender/Blender.app/Contents/MacOS/Blender");
    assert_eq!(Platform::Windows.separator(), '\\');
    assert_eq!(Platform::Linux.separator(), '/');
}
