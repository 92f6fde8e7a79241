use ferric_viewer::render::{print_file_tree, print_file_tree_long};
use ferric_viewer::tree::{FileInfo, FileTree};

fn file_node(path: &str, name: &str, size: u64, modified: u64) -> FileTree {
    FileTree::File(FileInfo {
        path: path.to_string(),
        file_name: name.to_string(),
        size,
        modified,
    })
}

fn dir_node(name: &str, children: Vec<FileTree>) -> FileTree {
    FileTree::Directory {
        name: name.to_string(),
        children,
    }
}

fn sample_tree() -> FileTree {
    dir_node(
        "root",
        vec![
            file_node("root/a.txt", "a.txt", 10, 111),
            dir_node("sub", vec![file_node("root/sub/b.txt", "b.txt", 20, 222)]),
        ],
    )
}

#[test]
fn compact_scenario_renders_four_lines_with_last_glyphs() {
    let lines = print_file_tree(&sample_tree());
    assert_eq!(
        lines,
        vec![
            "\x1B[31mroot".to_string(),
            "├── a.txt".to_string(),
            "\x1B[32m└── sub".to_string(),
            "    └── b.txt".to_string(),
        ]
    );
}

#[test]
fn compact_marks_exactly_the_final_child_as_last() {
    let tree = dir_node(
        "root",
        vec![
            file_node("root/f1", "f1", 1, 1),
            file_node("root/f2", "f2", 2, 2),
            file_node("root/f3", "f3", 3, 3),
        ],
    );
    let lines = print_file_tree(&tree);
    assert_eq!(
        lines,
        vec![
            "\x1B[31mroot".to_string(),
            "├── f1".to_string(),
            "├── f2".to_string(),
            "└── f3".to_string(),
        ]
    );
    let last_count = lines.iter().filter(|l| l.contains("└── ")).count();
    let mid_count = lines.iter().filter(|l| l.contains("├── ")).count();
    assert_eq!(last_count, 1);
    assert_eq!(mid_count, 2);
}

#[test]
fn compact_padding_reflects_ancestor_status() {
    let tree = dir_node(
        "root",
        vec![
            dir_node("d1", vec![file_node("root/d1/x", "x", 1, 1)]),
            dir_node("d2", vec![file_node("root/d2/y", "y", 2, 2)]),
        ],
    );
    let lines = print_file_tree(&tree);
    assert_eq!(
        lines,
        vec![
            "\x1B[31mroot".to_string(),
            "\x1B[32m├── d1".to_string(),
            "│   └── x".to_string(),
            "\x1B[32m└── d2".to_string(),
            "    └── y".to_string(),
        ]
    );
}

#[test]
fn compact_palette_rotates_per_level_and_wraps() {
    let mut tree = dir_node("d6", vec![]);
    for name in ["d5", "d4", "d3", "d2", "d1"] {
        tree = dir_node(name, vec![tree]);
    }
    let tree = dir_node("root", vec![tree]);
    let lines = print_file_tree(&tree);
    assert_eq!(lines.len(), 7);
    assert_eq!(lines[0], "\x1B[31mroot");
    assert_eq!(lines[1], "\x1B[32m└── d1");
    assert_eq!(lines[2], "    \x1B[33m└── d2");
    assert_eq!(lines[3], "        \x1B[34m└── d3");
    assert_eq!(lines[4], "            \x1B[35m└── d4");
    assert_eq!(lines[5], "                \x1B[36m└── d5");
    assert_eq!(lines[6], "                    \x1B[31m└── d6");
}

#[test]
fn rendering_a_fixed_tree_twice_yields_the_same_lines() {
    let tree = sample_tree();
    assert_eq!(print_file_tree(&tree), print_file_tree(&tree));
    assert_eq!(print_file_tree_long(&tree), print_file_tree_long(&tree));
}

#[test]
fn compact_lone_file_prints_bare_name() {
    let lines = print_file_tree(&file_node("a.txt", "a.txt", 1, 1));
    assert_eq!(lines, vec!["a.txt".to_string()]);
}

#[test]
fn compact_empty_directory_prints_one_line() {
    let lines = print_file_tree(&dir_node("empty", vec![]));
    assert_eq!(lines, vec!["\x1B[31mempty".to_string()]);
}

#[test]
fn verbose_scenario_prints_metadata_below_root_level() {
    let lines = print_file_tree_long(&sample_tree());
    assert_eq!(
        lines,
        vec![
            "\x1B[34m[root]".to_string(),
            "    \x1B[32ma.txt".to_string(),
            "Path: root/a.txt".to_string(),
            "Size: 10 bytes".to_string(),
            "Last modified: 111".to_string(),
            "    \x1B[34m[sub]".to_string(),
            "        \x1B[32mb.txt".to_string(),
            "Path: root/sub/b.txt".to_string(),
            "Size: 20 bytes".to_string(),
            "Last modified: 222".to_string(),
            "\x1B[0m".to_string(),
            "\x1B[0m".to_string(),
        ]
    );
}

#[test]
fn verbose_root_level_file_carries_no_metadata_lines() {
    let lines = print_file_tree_long(&file_node("lone.txt", "lone.txt", 42, 7));
    assert_eq!(lines, vec!["\x1B[32mlone.txt".to_string()]);
}

#[test]
fn verbose_empty_directory_prints_header_and_reset() {
    let lines = print_file_tree_long(&dir_node("empty", vec![]));
    assert_eq!(
        lines,
        vec!["\x1B[34m[empty]".to_string(), "\x1B[0m".to_string()]
    );
}
