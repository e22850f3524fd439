//! Cleaning, deleting and unpacking.

use sheepit_client::files::{
    CleanAction, EntryStep, FoldersCreated, UNZIP_WORKERS, UnzipWorker, cleanWorkingDir,
    deleteDirDeep, nextFinished,
};
use sheepit_client::paths::PathPieces;

fn path(name: &str) -> PathPieces {
    PathPieces::of(name)
}

#[test]
fn cleaning_keeps_wool() {
    assert_eq!(cleanWorkingDir(true, "x.wool"), CleanAction::DeleteTree);
    assert_eq!(cleanWorkingDir(false, "x.wool"), CleanAction::Keep);
    assert_eq!(cleanWorkingDir(false, ".wool"), CleanAction::RemoveFile);
    assert_eq!(cleanWorkingDir(false, "x.WOOL"), CleanAction::RemoveFile);
    assert_eq!(cleanWorkingDir(false, "x"), CleanAction::RemoveFile);
}

#[test]
fn the_next_finished_task() {
    let flags = vec![false, true, false, true];
    assert_eq!(nextFinished(&flags, 0), Some(1));
    assert_eq!(nextFinished(&flags, 2), Some(3));
    assert_eq!(nextFinished(&flags, 4), None);
    assert_eq!(nextFinished(&vec![false], 0), None);
    assert_eq!(nextFinished(&flags, 99), None);
}

#[test]
fn a_tree_is_deleted_from_its_leaves() {
    let entries = |p: &str| -> Option<Vec<String>> {
        let list: &[&str] = match p {
            "r" => &["r/a", "r/f", "r/b"],
            "r/a" => &["r/a/g", "r/a/c"],
            "r/a/c" => &[],
            "r/b" => &["r/b/h"],
            _ => return None,
        };
        Some(list.iter().map(|s| s.to_string()).collect())
    };
    let mut walk = deleteDirDeep("r".to_string());
    let mut files = Vec::new();
    while let Some(p) = walk.next() {
        match entries(&p) {
            Some(list) => walk.enter(p, list),
            None => files.push(p),
        }
    }
    files.sort();
    assert_eq!(files, vec!["r/a/g", "r/b/h", "r/f"]);
    assert_eq!(walk.removals(), vec!["r/a/c", "r/a", "r/b", "r"]);
}

#[test]
fn a_single_file_is_no_folder() {
    let mut walk = deleteDirDeep(5u8);
    assert_eq!(walk.next(), Some(5));
    assert_eq!(walk.next(), None);
    assert!(walk.removals().is_empty());
}

#[test]
fn folders_are_created_once() {
    let mut folders = FoldersCreated::none();
    assert!(folders.insert(path("a")));
    assert!(!folders.insert(path("a")));
    assert!(folders.insert(path("a").join("b")));
    assert!(folders.insert(path("b")));
    assert!(!folders.insert(path("a").join("b")));
}

#[test]
fn a_single_worker_takes_everything() {
    let mut folders = FoldersCreated::none();
    let mut worker = UnzipWorker::new(1, 0);
    assert_eq!(worker.step(&mut folders, path("d"), true, false), EntryStep::Create);
    assert_eq!(worker.step(&mut folders, path("d"), true, false), EntryStep::Skip);
    assert_eq!(worker.step(&mut folders, path("d").join("f"), false, true), EntryStep::Extract);
    assert_eq!(worker.step(&mut folders, path("odd"), false, false), EntryStep::Skip);
    assert_eq!(worker.index, 0);
}

#[test]
fn workers_share_the_files() {
    let mut folders = FoldersCreated::none();
    let mut workers: Vec<UnzipWorker> =
        (0..UNZIP_WORKERS).map(|i| UnzipWorker::new(UNZIP_WORKERS, i)).collect();
    let mut created = 0;
    for worker in workers.iter_mut() {
        if worker.step(&mut folders, path("d"), true, false) == EntryStep::Create {
            created += 1;
        }
    }
    assert_eq!(created, 1);
    for file in 1..=20u32 {
        let takers: Vec<u32> = workers
            .iter_mut()
            .filter_map(|w| {
                let step = w.step(&mut folders, path("f"), false, true);
                (step == EntryStep::Extract).then_some(w.wi)
            })
            .collect();
        assert_eq!(takers, vec![file % UNZIP_WORKERS]);
    }
}

#[test]
fn an_archive_is_unzipped_in_any_order() {
    // a folder twice, three files, and an entry that is neither.
    let entries = [
        ("d", true, false),
        ("a", false, true),
        ("link", false, false),
        ("d", true, false),
        ("b", false, true),
        ("e", true, false),
        ("c", false, true),
    ];
    for order in [[0u32, 1], [1, 0]] {
        let mut folders = FoldersCreated::none();
        let mut created = Vec::new();
        let mut extracted = Vec::new();
        for wi in order {
            let mut worker = UnzipWorker::new(2, wi);
            for (name, isDir, isFile) in entries {
                match worker.step(&mut folders, path(name), isDir, isFile) {
                    EntryStep::Create => created.push(name),
                    EntryStep::Extract => extracted.push((name, wi)),
                    EntryStep::Skip => {}
                }
            }
        }
        extracted.sort();
        assert_eq!(created, vec!["d", "e"]);
        assert_eq!(extracted, vec![("a", 1), ("b", 0), ("c", 1)]);
    }
}

#[test]
fn one_worker_takes_all_files() {
    let mut folders = FoldersCreated::none();
    let mut worker = UnzipWorker::new(1, 0);
    for name in ["a", "b", "c"] {
        assert_eq!(worker.step(&mut folders, path(name), false, true), EntryStep::Extract);
    }
    assert_eq!(worker.step(&mut folders, path("d"), false, false), EntryStep::Skip);
    assert_eq!(worker.index, 0);
}
