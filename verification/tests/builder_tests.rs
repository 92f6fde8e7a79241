use ferric_viewer::builder::{build, Objects};
use ferric_viewer::snapshot::{FilesystemError, RawEntry, RootRead};
use ferric_viewer::tree::{FileInfo, FileTree};

fn file_entry(path: &str, name: &str, size: u64, modified: u64) -> RawEntry {
    RawEntry::File {
        path: path.to_string(),
        name: name.to_string(),
        size,
        modified,
    }
}

fn file_node(path: &str, name: &str, size: u64, modified: u64) -> FileTree {
    FileTree::File(FileInfo {
        path: path.to_string(),
        file_name: name.to_string(),
        size,
        modified,
    })
}

fn sample_root() -> RootRead {
    RootRead::Dir {
        name: "root".to_string(),
        entries: vec![
            file_entry("root/a.txt", "a.txt", 10, 111),
            RawEntry::Dir {
                name: "sub".to_string(),
                listing: Some(vec![file_entry("root/sub/b.txt", "b.txt", 20, 222)]),
            },
        ],
    }
}

#[test]
fn shallow_build_lists_direct_children_only() {
    let objects = Objects::search(&sample_root()).unwrap();
    let expected = FileTree::Directory {
        name: "root".to_string(),
        children: vec![
            file_node("root/a.txt", "a.txt", 10, 111),
            FileTree::Directory {
                name: "sub".to_string(),
                children: vec![],
            },
        ],
    };
    assert_eq!(*objects.get_tree(), expected);
}

#[test]
fn shallow_child_count_matches_entry_count() {
    let objects = Objects::search(&sample_root()).unwrap();
    match objects.get_tree() {
        FileTree::Directory { children, .. } => assert_eq!(children.len(), 2),
        FileTree::File(_) => panic!("root must be a directory"),
    }
}

#[test]
fn recursive_build_expands_every_subdirectory() {
    let objects = Objects::search_recursive(&sample_root()).unwrap();
    let expected = FileTree::Directory {
        name: "root".to_string(),
        children: vec![
            file_node("root/a.txt", "a.txt", 10, 111),
            FileTree::Directory {
                name: "sub".to_string(),
                children: vec![file_node("root/sub/b.txt", "b.txt", 20, 222)],
            },
        ],
    };
    assert_eq!(*objects.get_tree(), expected);
}

#[test]
fn build_dispatches_on_mode() {
    let shallow = build(&sample_root(), false).unwrap();
    let recursive = build(&sample_root(), true).unwrap();
    assert_eq!(*shallow.get_tree(), *Objects::search(&sample_root()).unwrap().get_tree());
    assert_eq!(
        *recursive.get_tree(),
        *Objects::search_recursive(&sample_root()).unwrap().get_tree()
    );
}

#[test]
fn building_the_same_snapshot_twice_yields_identical_trees() {
    let first = build(&sample_root(), true).unwrap();
    let second = build(&sample_root(), true).unwrap();
    assert_eq!(*first.get_tree(), *second.get_tree());
}

#[test]
fn empty_directory_builds_to_childless_node() {
    let snapshot = RootRead::Dir {
        name: "empty".to_string(),
        entries: vec![],
    };
    let shallow = build(&snapshot, false).unwrap();
    let recursive = build(&snapshot, true).unwrap();
    let expected = FileTree::Directory {
        name: "empty".to_string(),
        children: vec![],
    };
    assert_eq!(*shallow.get_tree(), expected);
    assert_eq!(*recursive.get_tree(), expected);
}

#[test]
fn nonexistent_path_fails_with_path_not_found() {
    assert_eq!(
        build(&RootRead::NotFound, false).unwrap_err(),
        FilesystemError::PathNotFound
    );
    assert_eq!(
        build(&RootRead::NotFound, true).unwrap_err(),
        FilesystemError::PathNotFound
    );
}

#[test]
fn non_directory_path_fails_with_not_a_directory() {
    assert_eq!(
        build(&RootRead::NotADirectory, true).unwrap_err(),
        FilesystemError::NotADirectory
    );
}

#[test]
fn denied_root_fails_with_permission_denied() {
    assert_eq!(
        build(&RootRead::Denied, false).unwrap_err(),
        FilesystemError::PermissionDenied
    );
}

#[test]
fn opaque_entries_are_skipped_without_failing() {
    let snapshot = RootRead::Dir {
        name: "root".to_string(),
        entries: vec![
            RawEntry::Opaque,
            file_entry("root/kept.txt", "kept.txt", 5, 1),
            RawEntry::Opaque,
        ],
    };
    let expected = FileTree::Directory {
        name: "root".to_string(),
        children: vec![file_node("root/kept.txt", "kept.txt", 5, 1)],
    };
    assert_eq!(*build(&snapshot, false).unwrap().get_tree(), expected);
    assert_eq!(*build(&snapshot, true).unwrap().get_tree(), expected);
}

#[test]
fn unreadable_subdirectory_is_kept_empty_without_failing_siblings() {
    let snapshot = RootRead::Dir {
        name: "root".to_string(),
        entries: vec![
            RawEntry::Dir {
                name: "locked".to_string(),
                listing: None,
            },
            file_entry("root/seen.txt", "seen.txt", 3, 9),
        ],
    };
    let expected = FileTree::Directory {
        name: "root".to_string(),
        children: vec![
            FileTree::Directory {
                name: "locked".to_string(),
                children: vec![],
            },
            file_node("root/seen.txt", "seen.txt", 3, 9),
        ],
    };
    assert_eq!(*build(&snapshot, true).unwrap().get_tree(), expected);
}
