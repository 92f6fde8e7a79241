//! The plain-value snapshot of a directory listing that the builder
//! consumes, and the error taxonomy of the build.
//!
//! The surrounding program enumerates the filesystem and hands the
//! library one `RootRead` value; the library never touches the
//! filesystem itself.

use vstd::prelude::*;

verus! {

broadcast use vstd::seq::axiom_seq_index_decreases, vstd::std_specs::vec::axiom_vec_decreases_to_view;

/// What was observed for one entry of a directory listing.
#[derive(Debug)]
pub enum RawEntry {
    /// A subdirectory.  `listing` holds its own entries where it was
    /// inspected and could be read; it is `None` where the traversal did
    /// not descend into it (shallow mode) or where reading it was denied
    /// (recursive mode).
    Dir { name: String, listing: Option<Vec<RawEntry>> },
    /// A regular file together with its metadata.  The modification
    /// instant is an opaque integer stamp.
    File { path: String, name: String, size: u64, modified: u64 },
    /// An entry that contributes nothing to the tree: one that is neither
    /// a regular file nor a directory (a dangling symlink, a device, a
    /// socket, a fifo), or one whose name or metadata could not be
    /// retrieved.  The builder's policy is to skip such entries without
    /// failing the build.
    Opaque,
}

/// What was observed when the starting path itself was listed.
#[derive(Debug)]
pub enum RootRead {
    /// The path is a readable directory; `name` is its base name and
    /// `entries` its listing, in filesystem enumeration order.
    Dir { name: String, entries: Vec<RawEntry> },
    /// The path does not exist.
    NotFound,
    /// The path exists but is not a directory.
    NotADirectory,
    /// The path is a directory whose listing was denied.
    Denied,
}

/// Why a build failed.  Failures of individual entries never abort the
/// build (the entry is skipped, or the subtree left empty), so only the
/// starting path can produce an error.
#[derive(Clone, Copy, Debug, PartialEq, Eq, Structural)]
pub enum FilesystemError {
    PathNotFound,
    NotADirectory,
    PermissionDenied,
}

/// Mathematical view of a `RawEntry`.
pub enum RawEntryView {
    Dir { name: Seq<char>, listing: Option<Seq<RawEntryView>> },
    File { path: Seq<char>, name: Seq<char>, size: u64, modified: u64 },
    Opaque,
}

/// Mathematical view of a `RootRead`.
pub enum RootReadView {
    Dir { name: Seq<char>, entries: Seq<RawEntryView> },
    NotFound,
    NotADirectory,
    Denied,
}

impl View for RawEntry {
    type V = RawEntryView;

    open spec fn view(&self) -> RawEntryView
        decreases self,
    {
        match self {
            RawEntry::Dir { name, listing } => RawEntryView::Dir {
                name: name@,
                listing: match listing {
                    Some(l) => Some(raw_views_of(l@)),
                    None => None,
                },
            },
            RawEntry::File { path, name, size, modified } => RawEntryView::File {
                path: path@,
                name: name@,
                size: *size,
                modified: *modified,
            },
            RawEntry::Opaque => RawEntryView::Opaque,
        }
    }
}

/// The views of a sequence of raw entries, in order.
pub open spec fn raw_views_of(es: Seq<RawEntry>) -> Seq<RawEntryView>
    decreases es,
{
    if es.len() == 0 {
        Seq::empty()
    } else {
        raw_views_of(es.drop_last()).push(es.last()@)
    }
}

/// `raw_views_of` maps the sequence pointwise.
pub proof fn lemma_raw_views_of(es: Seq<RawEntry>)
    ensures
        raw_views_of(es).len() == es.len(),
        forall|i: int| 0 <= i < es.len() ==> raw_views_of(es)[i] == es[i]@,
    decreases es,
{
    if es.len() > 0 {
        lemma_raw_views_of(es.drop_last());
        assert(raw_views_of(es) == raw_views_of(es.drop_last()).push(es.last()@));
        assert forall|i: int| 0 <= i < es.len() implies raw_views_of(es)[i] == es[i]@ by {
            if i < es.len() - 1 {
                assert(raw_views_of(es)[i] == raw_views_of(es.drop_last())[i]);
                assert(es.drop_last()[i] == es[i]);
            } else {
                assert(raw_views_of(es)[i] == es.last()@);
            }
        }
    }
}

impl View for RootRead {
    type V = RootReadView;

    open spec fn view(&self) -> RootReadView {
        match self {
            RootRead::Dir { name, entries } => RootReadView::Dir {
                name: name@,
                entries: raw_views_of(entries@),
            },
            RootRead::NotFound => RootReadView::NotFound,
            RootRead::NotADirectory => RootReadView::NotADirectory,
            RootRead::Denied => RootReadView::Denied,
        }
    }
}

} // verus!
