//! The tree builder: turns a snapshot of a directory listing into the
//! in-memory tree, in shallow or recursive mode.
//!
//! Policies, stated once and followed throughout:
//! - opaque entries (non-regular filesystem objects, or entries whose
//!   metadata could not be read) are skipped, never fatal;
//! - in recursive mode a subdirectory whose own listing could not be read
//!   is kept as a node with no children, so one unreadable branch never
//!   aborts its siblings;
//! - only the starting path itself can fail the build.

use vstd::prelude::*;

use crate::snapshot::{FilesystemError, RawEntry, RawEntryView, RootRead, RootReadView};
use crate::snapshot::{lemma_raw_views_of, raw_views_of};
use crate::tree::{FileInfo, FileTree, InfoView, TreeView};
use crate::tree::{lemma_views_of, lemma_views_of_push, views_of};

verus! {

broadcast use vstd::seq::axiom_seq_index_decreases, vstd::std_specs::vec::axiom_vec_decreases_to_view;

/// What one raw entry contributes to a shallow build: a subdirectory
/// becomes a directory node with no children, a file becomes a file
/// node, an opaque entry contributes nothing.
pub open spec fn shallow_entry(e: RawEntryView) -> Seq<TreeView> {
    match e {
        RawEntryView::Dir { name, listing } => seq![
            TreeView::Directory { name, children: Seq::empty() },
        ],
        RawEntryView::File { path, name, size, modified } => seq![
            TreeView::File(InfoView { path, file_name: name, size, modified }),
        ],
        RawEntryView::Opaque => Seq::empty(),
    }
}

/// The children of a shallow build, in listing order.
pub open spec fn shallow_children(es: Seq<RawEntryView>) -> Seq<TreeView>
    decreases es,
{
    if es.len() == 0 {
        Seq::empty()
    } else {
        shallow_children(es.drop_last()) + shallow_entry(es.last())
    }
}

/// What one raw entry contributes to a recursive build: a subdirectory
/// becomes the fully built subtree of its listing (an unreadable one a
/// node with no children), a file becomes a file node, an opaque entry
/// contributes nothing.
pub open spec fn deep_entry(e: RawEntryView) -> Seq<TreeView>
    decreases e,
{
    match e {
        RawEntryView::Dir { name, listing } => seq![
            TreeView::Directory {
                name,
                children: match listing {
                    Some(l) => deep_children(l),
                    None => Seq::empty(),
                },
            },
        ],
        RawEntryView::File { path, name, size, modified } => seq![
            TreeView::File(InfoView { path, file_name: name, size, modified }),
        ],
        RawEntryView::Opaque => Seq::empty(),
    }
}

/// The children of a recursive build, in listing order.
pub open spec fn deep_children(es: Seq<RawEntryView>) -> Seq<TreeView>
    decreases es,
{
    if es.len() == 0 {
        Seq::empty()
    } else {
        deep_children(es.drop_last()) + deep_entry(es.last())
    }
}

/// The tree that a build returns for a given snapshot and mode, or the
/// error: exactly one error per way the starting path can be bad, and an
/// error exactly when the starting path is not a readable directory.
pub open spec fn spec_build(root: RootReadView, recursive: bool) -> Result<TreeView, FilesystemError> {
    match root {
        RootReadView::Dir { name, entries } => Ok(
            TreeView::Directory {
                name,
                children: if recursive {
                    deep_children(entries)
                } else {
                    shallow_children(entries)
                },
            },
        ),
        RootReadView::NotFound => Err(FilesystemError::PathNotFound),
        RootReadView::NotADirectory => Err(FilesystemError::NotADirectory),
        RootReadView::Denied => Err(FilesystemError::PermissionDenied),
    }
}

/// The view of a build's result.
pub open spec fn build_outcome(r: Result<Objects, FilesystemError>) -> Result<TreeView, FilesystemError> {
    match r {
        Ok(o) => Ok(o@),
        Err(e) => Err(e),
    }
}

/// Extending a listing by one entry appends that entry's shallow
/// contribution.
pub proof fn lemma_shallow_take_snoc(es: Seq<RawEntryView>, i: int)
    requires
        0 <= i < es.len(),
    ensures
        shallow_children(es.take(i + 1)) == shallow_children(es.take(i)) + shallow_entry(es[i]),
{
    assert(es.take(i + 1).drop_last() =~= es.take(i));
    assert(es.take(i + 1).last() == es[i]);
    assert(shallow_children(es.take(i + 1)) == shallow_children(es.take(i + 1).drop_last())
        + shallow_entry(es.take(i + 1).last()));
}

/// Extending a listing by one entry appends that entry's recursive
/// contribution.
pub proof fn lemma_deep_take_snoc(es: Seq<RawEntryView>, i: int)
    requires
        0 <= i < es.len(),
    ensures
        deep_children(es.take(i + 1)) == deep_children(es.take(i)) + deep_entry(es[i]),
{
    assert(es.take(i + 1).drop_last() =~= es.take(i));
    assert(es.take(i + 1).last() == es[i]);
    assert(deep_children(es.take(i + 1)) == deep_children(es.take(i + 1).drop_last())
        + deep_entry(es.take(i + 1).last()));
}

/// In shallow mode, over a listing with no opaque entries, the build
/// succeeds and the root's children are exactly one node per entry, in
/// listing order: every subdirectory entry becomes a directory node with
/// an empty child sequence, every file entry a file node with that
/// file's metadata.
pub proof fn lemma_shallow_build_exact(name: Seq<char>, es: Seq<RawEntryView>)
    requires
        forall|i: int| 0 <= i < es.len() ==> !(es[i] is Opaque),
    ensures
        spec_build(RootReadView::Dir { name, entries: es }, false) == Ok::<
            TreeView,
            FilesystemError,
        >(TreeView::Directory { name, children: shallow_children(es) }),
        shallow_children(es).len() == es.len(),
        forall|i: int| #![trigger es[i]]
            0 <= i < es.len() ==> {
                let c = shallow_children(es)[i];
                &&& (es[i] matches RawEntryView::Dir { name, listing } ==> c == (
                TreeView::Directory { name, children: Seq::<TreeView>::empty() }))
                &&& (es[i] matches RawEntryView::File { path, name, size, modified } ==> c
                    == TreeView::File(InfoView { path, file_name: name, size, modified }))
            },
    decreases es,
{
    if es.len() > 0 {
        let pre = es.drop_last();
        assert(forall|i: int| 0 <= i < pre.len() ==> pre[i] == es[i]);
        lemma_shallow_build_exact(name, pre);
        assert(shallow_children(es) == shallow_children(pre) + shallow_entry(es.last()));
        assert(!(es.last() is Opaque));
        assert(shallow_entry(es.last()).len() == 1);
        assert forall|i: int| #![trigger es[i]] 0 <= i < es.len() implies {
            let c = shallow_children(es)[i];
            &&& (es[i] matches RawEntryView::Dir { name, listing } ==> c == (
            TreeView::Directory { name, children: Seq::<TreeView>::empty() }))
            &&& (es[i] matches RawEntryView::File { path, name, size, modified } ==> c
                == TreeView::File(InfoView { path, file_name: name, size, modified }))
        } by {
            if i < es.len() - 1 {
                assert(shallow_children(es)[i] == shallow_children(pre)[i]);
            } else {
                assert(shallow_children(es)[i] == shallow_entry(es.last())[0]);
            }
        }
    }
}

/// Whether every entry of a listing was fully inspected: none is
/// opaque, and every subdirectory's own listing was read and is itself
/// fully listed.  Builds over such a snapshot lose nothing.
pub open spec fn fully_listed(es: Seq<RawEntryView>) -> bool
    decreases es,
{
    if es.len() == 0 {
        true
    } else {
        fully_listed(es.drop_last()) && entry_fully_listed(es.last())
    }
}

/// Whether one entry was fully inspected.
pub open spec fn entry_fully_listed(e: RawEntryView) -> bool
    decreases e,
{
    match e {
        RawEntryView::Dir { name, listing } => match listing {
            Some(l) => fully_listed(l),
            None => false,
        },
        RawEntryView::File { .. } => true,
        RawEntryView::Opaque => false,
    }
}

/// Whether a built child sequence matches a listing exactly: one node
/// per entry, in listing order, with subdirectories matching
/// recursively — no omissions, no duplicates, no extras.
pub open spec fn listing_matches(es: Seq<RawEntryView>, ts: Seq<TreeView>) -> bool
    decreases es,
{
    &&& ts.len() == es.len()
    &&& (es.len() > 0 ==> listing_matches(es.drop_last(), ts.drop_last()) && entry_matches(
        es.last(),
        ts.last(),
    ))
}

/// Whether one built node matches one listing entry.
pub open spec fn entry_matches(e: RawEntryView, t: TreeView) -> bool
    decreases e,
{
    match e {
        RawEntryView::Dir { name, listing } => match listing {
            Some(l) => t matches TreeView::Directory { name: built_name, children }
                && built_name == name && listing_matches(l, children),
            None => false,
        },
        RawEntryView::File { path, name, size, modified } => t == TreeView::File(
            InfoView { path, file_name: name, size, modified },
        ),
        RawEntryView::Opaque => false,
    }
}

/// In recursive mode, over a fully listed snapshot, the build succeeds
/// and the built children match the listing exactly and recursively at
/// every level.
pub proof fn lemma_recursive_build_exact(name: Seq<char>, es: Seq<RawEntryView>)
    requires
        fully_listed(es),
    ensures
        spec_build(RootReadView::Dir { name, entries: es }, true) == Ok::<
            TreeView,
            FilesystemError,
        >(TreeView::Directory { name, children: deep_children(es) }),
        listing_matches(es, deep_children(es)),
    decreases es,
{
    if es.len() > 0 {
        let pre = es.drop_last();
        let e = es.last();
        assert(fully_listed(es) == (fully_listed(pre) && entry_fully_listed(e)));
        lemma_recursive_build_exact(name, pre);
        if let RawEntryView::Dir { name: sub_name, listing } = e {
            if let Some(l) = listing {
                lemma_recursive_build_exact(sub_name, l);
                assert(deep_entry(e)[0] == (TreeView::Directory {
                    name: sub_name,
                    children: deep_children(l),
                }));
            }
        }
        assert(deep_children(es) == deep_children(pre) + deep_entry(e));
        assert(deep_entry(e).len() == 1);
        assert(entry_matches(e, deep_entry(e)[0]));
        let ts = deep_children(es);
        assert(ts.drop_last() =~= deep_children(pre));
        assert(ts.last() == deep_entry(e)[0]);
    }
}

/// Building twice from snapshots that carry the same values yields the
/// same result: `spec_build` is a function of the snapshot alone, and
/// the builders' postconditions pin their results to it, so two builds
/// of one unchanged directory yield structurally identical trees.
pub proof fn lemma_build_deterministic(a: RootReadView, b: RootReadView, recursive: bool)
    requires
        a == b,
    ensures
        spec_build(a, recursive) == spec_build(b, recursive),
{
}

/// An empty directory builds, in either mode, to a root node with no
/// children — not to an error.
pub proof fn lemma_empty_dir_build(name: Seq<char>, recursive: bool)
    ensures
        spec_build(RootReadView::Dir { name, entries: Seq::empty() }, recursive) == Ok::<
            TreeView,
            FilesystemError,
        >(TreeView::Directory { name, children: Seq::empty() }),
{
}

/// A bad starting path fails, in either mode, with the one error that
/// names what was wrong with it, and the build returns an error exactly
/// when the starting path is not a readable directory: no partial tree
/// accompanies a failure.
pub proof fn lemma_bad_root_build(root: RootReadView, recursive: bool)
    ensures
        root is NotFound ==> spec_build(root, recursive) == Err::<TreeView, FilesystemError>(
            FilesystemError::PathNotFound,
        ),
        root is NotADirectory ==> spec_build(root, recursive) == Err::<TreeView, FilesystemError>(
            FilesystemError::NotADirectory,
        ),
        root is Denied ==> spec_build(root, recursive) == Err::<TreeView, FilesystemError>(
            FilesystemError::PermissionDenied,
        ),
        spec_build(root, recursive) is Err <==> !(root is Dir),
{
}

/// Builds the children of a shallow tree from one listing.
fn shallow_list(entries: &Vec<RawEntry>) -> (out: Vec<FileTree>)
    ensures
        views_of(out@) == shallow_children(raw_views_of(entries@)),
{
    let ghost rv = raw_views_of(entries@);
    proof {
        lemma_raw_views_of(entries@);
    }
    let mut out: Vec<FileTree> = Vec::new();
    let mut i: usize = 0;
    while i < entries.len()
        invariant
            i <= entries.len(),
            rv == raw_views_of(entries@),
            rv.len() == entries@.len(),
            forall|j: int| 0 <= j < entries@.len() ==> rv[j] == entries@[j]@,
            views_of(out@) == shallow_children(rv.take(i as int)),
        decreases entries@.len() - i,
    {
        let ghost out0 = out@;
        match &entries[i] {
            RawEntry::Dir { name, listing } => {
                let node = FileTree::Directory { name: name.clone(), children: Vec::new() };
                proof {
                    lemma_views_of_push(out0, node);
                }
                out.push(node);
            },
            RawEntry::File { path, name, size, modified } => {
                let node = FileTree::File(
                    FileInfo {
                        path: path.clone(),
                        file_name: name.clone(),
                        size: *size,
                        modified: *modified,
                    },
                );
                proof {
                    lemma_views_of_push(out0, node);
                }
                out.push(node);
            },
            RawEntry::Opaque => {
                proof {
                    assert(views_of(out@) + Seq::<TreeView>::empty() =~= views_of(out@));
                }
            },
        }
        proof {
            lemma_shallow_take_snoc(rv, i as int);
        }
        i = i + 1;
    }
    proof {
        assert(rv.take(entries@.len() as int) =~= rv);
    }
    out
}

/// Builds the children of a recursive tree from one listing, descending
/// into every subdirectory whose own listing was read.
fn deep_list(entries: &Vec<RawEntry>) -> (out: Vec<FileTree>)
    ensures
        views_of(out@) == deep_children(raw_views_of(entries@)),
    decreases entries,
{
    let ghost rv = raw_views_of(entries@);
    proof {
        lemma_raw_views_of(entries@);
    }
    let mut out: Vec<FileTree> = Vec::new();
    let mut i: usize = 0;
    while i < entries.len()
        invariant
            i <= entries.len(),
            rv == raw_views_of(entries@),
            rv.len() == entries@.len(),
            forall|j: int| 0 <= j < entries@.len() ==> rv[j] == entries@[j]@,
            views_of(out@) == deep_children(rv.take(i as int)),
        decreases entries@.len() - i,
    {
        let ghost out0 = out@;
        match &entries[i] {
            RawEntry::Dir { name, listing } => {
                let children = match listing {
                    Some(l) => deep_list(l),
                    None => Vec::new(),
                };
                let node = FileTree::Directory { name: name.clone(), children };
                proof {
                    lemma_views_of_push(out0, node);
                }
                out.push(node);
            },
            RawEntry::File { path, name, size, modified } => {
                let node = FileTree::File(
                    FileInfo {
                        path: path.clone(),
                        file_name: name.clone(),
                        size: *size,
                        modified: *modified,
                    },
                );
                proof {
                    lemma_views_of_push(out0, node);
                }
                out.push(node);
            },
            RawEntry::Opaque => {
                proof {
                    assert(views_of(out@) + Seq::<TreeView>::empty() =~= views_of(out@));
                }
            },
        }
        proof {
            lemma_deep_take_snoc(rv, i as int);
        }
        i = i + 1;
    }
    proof {
        assert(rv.take(entries@.len() as int) =~= rv);
    }
    out
}

/// The result of one build: the root node and nothing else.
#[derive(Debug)]
pub struct Objects {
    file_tree: FileTree,
}

impl View for Objects {
    type V = TreeView;

    closed spec fn view(&self) -> TreeView {
        self.file_tree@
    }
}

impl Objects {
    /// Builds the tree in shallow mode: the immediate children of the
    /// starting path only, with every subdirectory kept as an empty node.
    pub fn search(root: &RootRead) -> (r: Result<Objects, FilesystemError>)
        ensures
            build_outcome(r) == spec_build(root@, false),
    {
        match root {
            RootRead::Dir { name, entries } => {
                let children = shallow_list(entries);
                Ok(
                    Objects {
                        file_tree: FileTree::Directory { name: name.clone(), children },
                    },
                )
            },
            RootRead::NotFound => Err(FilesystemError::PathNotFound),
            RootRead::NotADirectory => Err(FilesystemError::NotADirectory),
            RootRead::Denied => Err(FilesystemError::PermissionDenied),
        }
    }

    /// Builds the tree in recursive mode: every subdirectory whose
    /// listing was read is fully expanded before it is attached.
    pub fn search_recursive(root: &RootRead) -> (r: Result<Objects, FilesystemError>)
        ensures
            build_outcome(r) == spec_build(root@, true),
    {
        match root {
            RootRead::Dir { name, entries } => {
                let children = deep_list(entries);
                Ok(
                    Objects {
                        file_tree: FileTree::Directory { name: name.clone(), children },
                    },
                )
            },
            RootRead::NotFound => Err(FilesystemError::PathNotFound),
            RootRead::NotADirectory => Err(FilesystemError::NotADirectory),
            RootRead::Denied => Err(FilesystemError::PermissionDenied),
        }
    }

    /// The built tree, read-only.
    pub fn get_tree(&self) -> (t: &FileTree)
        ensures
            t@ == self@,
    {
        &self.file_tree
    }
}

/// Builds the tree for one snapshot in the requested mode.
pub fn build(root: &RootRead, recursive: bool) -> (r: Result<Objects, FilesystemError>)
    ensures
        build_outcome(r) == spec_build(root@, recursive),
{
    if recursive {
        Objects::search_recursive(root)
    } else {
        Objects::search(root)
    }
}

} // verus!
