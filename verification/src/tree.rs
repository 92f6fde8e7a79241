//! The in-memory tree: directory nodes and file entries, with their
//! mathematical views.

use vstd::prelude::*;

verus! {

/// Metadata of one regular file, as plain values.
///
/// The modification instant is carried as an opaque integer stamp: the
/// library never interprets it, it only stores and prints it.  The
/// OS-specific metadata bag (ownership, permission and type bits) feeds
/// no decision and appears in neither display mode, so it is not
/// carried.
#[derive(Debug, Clone, PartialEq, Eq)]
pub struct FileInfo {
    pub path: String,
    pub file_name: String,
    pub size: u64,
    pub modified: u64,
}

/// One node of the tree: a directory with its ordered children, or a
/// single regular file.
#[derive(Debug, PartialEq, Eq)]
pub enum FileTree {
    Directory { name: String, children: Vec<FileTree> },
    File(FileInfo),
}

/// Mathematical view of a `FileInfo`.
pub struct InfoView {
    pub path: Seq<char>,
    pub file_name: Seq<char>,
    pub size: u64,
    pub modified: u64,
}

/// Mathematical view of a `FileTree`.
pub enum TreeView {
    Directory { name: Seq<char>, children: Seq<TreeView> },
    File(InfoView),
}

impl View for FileInfo {
    type V = InfoView;

    open spec fn view(&self) -> InfoView {
        InfoView {
            path: self.path@,
            file_name: self.file_name@,
            size: self.size,
            modified: self.modified,
        }
    }
}

broadcast use vstd::seq::axiom_seq_index_decreases, vstd::std_specs::vec::axiom_vec_decreases_to_view;

impl View for FileTree {
    type V = TreeView;

    open spec fn view(&self) -> TreeView
        decreases self,
    {
        match self {
            FileTree::Directory { name, children } => TreeView::Directory {
                name: name@,
                children: views_of(children@),
            },
            FileTree::File(info) => TreeView::File(info@),
        }
    }
}

/// The views of a sequence of trees, in order.
pub open spec fn views_of(ts: Seq<FileTree>) -> Seq<TreeView>
    decreases ts,
{
    if ts.len() == 0 {
        Seq::empty()
    } else {
        views_of(ts.drop_last()).push(ts.last()@)
    }
}

/// `views_of` maps the sequence pointwise.
pub proof fn lemma_views_of(ts: Seq<FileTree>)
    ensures
        views_of(ts).len() == ts.len(),
        forall|i: int| 0 <= i < ts.len() ==> views_of(ts)[i] == ts[i]@,
    decreases ts,
{
    if ts.len() > 0 {
        lemma_views_of(ts.drop_last());
        assert(views_of(ts) == views_of(ts.drop_last()).push(ts.last()@));
        assert forall|i: int| 0 <= i < ts.len() implies views_of(ts)[i] == ts[i]@ by {
            if i < ts.len() - 1 {
                assert(views_of(ts)[i] == views_of(ts.drop_last())[i]);
                assert(ts.drop_last()[i] == ts[i]);
            } else {
                assert(views_of(ts)[i] == ts.last()@);
            }
        }
    }
}

/// Appending one tree appends its view.
pub proof fn lemma_views_of_push(ts: Seq<FileTree>, t: FileTree)
    ensures
        views_of(ts.push(t)) == views_of(ts) + seq![t@],
{
    assert(ts.push(t).drop_last() =~= ts);
    assert(views_of(ts.push(t)) == views_of(ts.push(t).drop_last()).push(ts.push(t).last()@));
    assert(views_of(ts).push(t@) =~= views_of(ts) + seq![t@]);
}

} // verus!
