//! The tree renderer: depth-first, pre-order traversal of a built tree
//! into ordered lines of text, in one of two modes.
//!
//! Compact mode draws branch glyphs and gives each directory nesting
//! level a rotating color out of a fixed palette of six; files are left
//! in the terminal's default color.  Verbose mode indents by four spaces
//! per level, brackets directory names in one fixed color, prints file
//! names in a second one, and follows every file below the root level
//! with its path, size and modification stamp.
//!
//! Rendering is a pure function of the tree: the functions here return
//! the lines, and the surrounding program prints them.

use vstd::prelude::*;
use vstd::string::StringExecFns;

use crate::text::{spec_dec, u64_to_dec};
use crate::tree::{FileTree, InfoView, TreeView};
use crate::tree::{lemma_views_of, views_of};

verus! {

broadcast use vstd::seq::axiom_seq_index_decreases, vstd::std_specs::vec::axiom_vec_decreases_to_view;

/// The views of a sequence of owned lines.
pub open spec fn str_views(ss: Seq<String>) -> Seq<Seq<char>> {
    ss.map_values(|s: String| s@)
}

/// The color given to a directory at one nesting depth: the palette of
/// six colors is rotated once per level.
pub open spec fn spec_color(depth: nat) -> Seq<char> {
    let k = depth % 6;
    if k == 0 {
        "\x1B[31m"@
    } else if k == 1 {
        "\x1B[32m"@
    } else if k == 2 {
        "\x1B[33m"@
    } else if k == 3 {
        "\x1B[34m"@
    } else if k == 4 {
        "\x1B[35m"@
    } else {
        "\x1B[36m"@
    }
}

/// The branch glyph before a node's name: none for the root, the
/// terminal glyph for the last child of its parent, the continuing glyph
/// for every other child.
pub open spec fn spec_prefix(depth: nat, last: bool) -> Seq<char> {
    if depth == 0 {
        Seq::empty()
    } else if last {
        "└── "@
    } else {
        "├── "@
    }
}

/// The vertical-continuation padding before a node: one unit per
/// ancestor below the root, four spaces where that ancestor was itself a
/// last child, a bar where it still has following siblings.
pub open spec fn spec_padding(flags: Seq<bool>) -> Seq<char>
    decreases flags,
{
    if flags.len() == 0 {
        Seq::empty()
    } else {
        spec_padding(flags.drop_last()) + (if flags.last() {
            "    "@
        } else {
            "│   "@
        })
    }
}

/// The ancestor flags handed to a node's children: the root contributes
/// no padding level, every other node contributes its own last flag.
pub open spec fn child_flags(depth: nat, last: bool, flags: Seq<bool>) -> Seq<bool> {
    if depth == 0 {
        flags
    } else {
        flags.push(last)
    }
}

/// The one line that a node prints for itself in compact mode:
/// padding, then (for a directory) its level's color, then the branch
/// glyph, then the base name.
pub open spec fn compact_node_line(t: TreeView, depth: nat, last: bool, flags: Seq<bool>) -> Seq<
    char,
> {
    match t {
        TreeView::Directory { name, children } => spec_padding(flags) + spec_color(depth)
            + spec_prefix(depth, last) + name,
        TreeView::File(info) => spec_padding(flags) + spec_prefix(depth, last) + info.file_name,
    }
}

/// The lines of one node in compact mode: its own line, then the lines
/// of its children in order.
pub open spec fn compact_lines(t: TreeView, depth: nat, last: bool, flags: Seq<bool>) -> Seq<
    Seq<char>,
>
    decreases t, 0int,
{
    match t {
        TreeView::Directory { name, children } => seq![compact_node_line(t, depth, last, flags)]
            + compact_lines_from(children, 0, depth + 1, child_flags(depth, last, flags)),
        TreeView::File(_) => seq![compact_node_line(t, depth, last, flags)],
    }
}

/// The compact-mode lines of the children from index `k` on; the child
/// at the final index, and only it, is rendered as a last child.
pub open spec fn compact_lines_from(cs: Seq<TreeView>, k: int, depth: nat, flags: Seq<bool>) -> Seq<
    Seq<char>,
>
    decreases cs, cs.len() - k,
{
    if k < 0 || k >= cs.len() {
        Seq::empty()
    } else {
        compact_lines(cs[k], depth, k == cs.len() - 1, flags) + compact_lines_from(
            cs,
            k + 1,
            depth,
            flags,
        )
    }
}

/// The depth encoded by the root flag and the ancestor flags: the root
/// is at depth zero, every other node one level below its ancestors.
pub open spec fn depth_of(root: bool, flags: Seq<bool>) -> nat {
    if root {
        0
    } else {
        flags.len() + 1
    }
}

/// Appending one line appends its view.
proof fn lemma_str_views_push(ss: Seq<String>, s: String)
    ensures
        str_views(ss.push(s)) == str_views(ss).push(s@),
{
    assert(str_views(ss.push(s)) =~= str_views(ss).push(s@));
}

/// `str_views` distributes over concatenation.
proof fn lemma_str_views_app(a: Seq<String>, b: Seq<String>)
    ensures
        str_views(a + b) == str_views(a) + str_views(b),
{
    assert(str_views(a + b) =~= str_views(a) + str_views(b));
}

/// Builds the padding string for one set of ancestor flags.
fn padding_string(flags: &Vec<bool>) -> (s: String)
    ensures
        s@ == spec_padding(flags@),
{
    let mut s = String::new();
    let mut i: usize = 0;
    while i < flags.len()
        invariant
            i <= flags.len(),
            s@ == spec_padding(flags@.take(i as int)),
        decreases flags@.len() - i,
    {
        if flags[i] {
            s.append("    ");
        } else {
            s.append("│   ");
        }
        proof {
            assert(flags@.take(i + 1).drop_last() =~= flags@.take(i as int));
            assert(flags@.take(i + 1).last() == flags@[i as int]);
            assert(spec_padding(flags@.take(i + 1)) == spec_padding(flags@.take(i + 1).drop_last())
                + (if flags@.take(i + 1).last() {
                "    "@
            } else {
                "│   "@
            }));
        }
        i = i + 1;
    }
    proof {
        assert(flags@.take(flags@.len() as int) =~= flags@);
    }
    s
}

/// Copies the ancestor flags and adds one for the node itself.
fn with_flag(flags: &Vec<bool>, last: bool) -> (out: Vec<bool>)
    ensures
        out@ == flags@.push(last),
{
    let mut out: Vec<bool> = Vec::new();
    let mut i: usize = 0;
    while i < flags.len()
        invariant
            i <= flags.len(),
            out@ == flags@.take(i as int),
        decreases flags@.len() - i,
    {
        out.push(flags[i]);
        proof {
            assert(out@ =~= flags@.take(i + 1));
        }
        i = i + 1;
    }
    proof {
        assert(out@ =~= flags@);
    }
    out.push(last);
    out
}

/// The color string of one depth.
fn color_str(root: bool, flags: &Vec<bool>) -> (s: &'static str)
    ensures
        s@ == spec_color(depth_of(root, flags@)),
{
    let k: usize = if root {
        0
    } else {
        (flags.len() % 6 + 1) % 6
    };
    proof {
        if !root {
            vstd::arithmetic::div_mod::lemma_add_mod_noop(flags@.len() as int, 1int, 6int);
        }
        assert(k == depth_of(root, flags@) % 6);
    }
    if k == 0 {
        "\x1B[31m"
    } else if k == 1 {
        "\x1B[32m"
    } else if k == 2 {
        "\x1B[33m"
    } else if k == 3 {
        "\x1B[34m"
    } else if k == 4 {
        "\x1B[35m"
    } else {
        "\x1B[36m"
    }
}

/// The branch glyph string of one position.
fn prefix_str(root: bool, last: bool) -> (s: &'static str)
    ensures
        forall|flags: Seq<bool>| s@ == spec_prefix(depth_of(root, flags), last),
{
    if root {
        proof {
            reveal_strlit("");
            assert(""@ =~= Seq::<char>::empty());
        }
        ""
    } else if last {
        "└── "
    } else {
        "├── "
    }
}

/// Renders one node in compact mode.  `root` marks the root of the whole
/// tree, `last` whether the node is the last child of its parent, and
/// `flags` carry the last-child status of every ancestor below the root.
#[verifier::loop_isolation(false)]
fn compact_at(tree: &FileTree, root: bool, last: bool, flags: &Vec<bool>) -> (lines: Vec<String>)
    requires
        root ==> flags@.len() == 0,
    ensures
        str_views(lines@) == compact_lines(tree@, depth_of(root, flags@), last, flags@),
    decreases tree,
{
    let ghost d = depth_of(root, flags@);
    let mut line = padding_string(flags);
    match tree {
        FileTree::Directory { name, children } => {
            line.append(color_str(root, flags));
            line.append(prefix_str(root, last));
            line.append(name.as_str());
            proof {
                assert(line@ == compact_node_line(tree@, d, last, flags@));
            }
            let mut lines: Vec<String> = Vec::new();
            lines.push(line);
            let cflags: Vec<bool> = if root {
                Vec::new()
            } else {
                with_flag(flags, last)
            };
            proof {
                assert(cflags@ == child_flags(d, last, flags@));
                lemma_views_of(children@);
            }
            let ghost cs = views_of(children@);
            let ghost total = compact_lines(tree@, d, last, flags@);
            proof {
                assert(str_views(lines@) =~= seq![line@]);
                assert(compact_lines_from(cs, 0, d + 1, cflags@) == compact_lines_from(
                    cs,
                    0,
                    d + 1,
                    child_flags(d, last, flags@),
                ));
                assert(total == seq![line@] + compact_lines_from(cs, 0, d + 1, cflags@));
            }
            let n = children.len();
            let mut i: usize = 0;
            while i < n
                invariant
                    i <= n,
                    n == children.len(),
                    cs == views_of(children@),
                    cs.len() == children@.len(),
                    forall|j: int| 0 <= j < children@.len() ==> cs[j] == children@[j]@,
                    cflags@ == child_flags(d, last, flags@),
                    cflags@.len() == d,
                    total == compact_lines(tree@, d, last, flags@),
                    str_views(lines@) + compact_lines_from(cs, i as int, d + 1, cflags@) == total,
                decreases n - i,
            {
                proof {
                    assert(decreases_to!(*tree => *children));
                    assert(decreases_to!(*children => children[i as int]));
                }
                let mut sub = compact_at(&children[i], false, i + 1 == n, &cflags);
                proof {
                    let ghost a = lines@;
                    let ghost b = sub@;
                    lemma_str_views_app(a, b);
                    assert(compact_lines_from(cs, i as int, d + 1, cflags@) == compact_lines(
                        cs[i as int],
                        d + 1,
                        i as int == cs.len() - 1,
                        cflags@,
                    ) + compact_lines_from(cs, i as int + 1, d + 1, cflags@));
                    assert(str_views(b) == compact_lines(
                        cs[i as int],
                        d + 1,
                        i as int == cs.len() - 1,
                        cflags@,
                    ));
                    assert((str_views(a) + str_views(b)) + compact_lines_from(
                        cs,
                        i as int + 1,
                        d + 1,
                        cflags@,
                    ) =~= str_views(a) + (str_views(b) + compact_lines_from(
                        cs,
                        i as int + 1,
                        d + 1,
                        cflags@,
                    )));
                }
                lines.append(&mut sub);
                i = i + 1;
            }
            proof {
                assert(compact_lines_from(cs, n as int, d + 1, cflags@) =~= Seq::<
                    Seq<char>,
                >::empty());
                assert(str_views(lines@) + Seq::<Seq<char>>::empty() =~= str_views(lines@));
            }
            lines
        },
        FileTree::File(info) => {
            line.append(prefix_str(root, last));
            line.append(info.file_name.as_str());
            let mut lines: Vec<String> = Vec::new();
            lines.push(line);
            proof {
                assert(str_views(lines@) =~= seq![
                    compact_node_line(tree@, d, last, flags@),
                ]);
            }
            lines
        },
    }
}

/// The fixed indent of one nesting level in verbose mode.
pub open spec fn spec_level_pad(level: nat) -> Seq<char>
    decreases level,
{
    if level == 0 {
        Seq::empty()
    } else {
        spec_level_pad((level - 1) as nat) + "    "@
    }
}

/// The three metadata lines that follow a file in verbose mode: its
/// path, its size in bytes and its modification stamp.
pub open spec fn info_lines(info: InfoView) -> Seq<Seq<char>> {
    seq![
        "Path: "@ + info.path,
        "Size: "@ + spec_dec(info.size as nat) + " bytes"@,
        "Last modified: "@ + spec_dec(info.modified as nat),
    ]
}

/// The lines of one node in verbose mode: a directory prints its
/// bracketed name in one fixed color, its children one level deeper, and
/// a color-reset marker after them; a file prints its name in a second
/// fixed color and, below the root level, its metadata lines.
pub open spec fn verbose_lines(t: TreeView, level: nat) -> Seq<Seq<char>>
    decreases t, 0int,
{
    match t {
        TreeView::Directory { name, children } => seq![
            spec_level_pad(level) + "\x1B[34m["@ + name + "]"@,
        ] + verbose_lines_from(children, 0, level + 1) + seq!["\x1B[0m"@],
        TreeView::File(info) => seq![spec_level_pad(level) + "\x1B[32m"@ + info.file_name] + (
        if level > 0 {
            info_lines(info)
        } else {
            Seq::empty()
        }),
    }
}

/// The verbose-mode lines of the children from index `k` on.
pub open spec fn verbose_lines_from(cs: Seq<TreeView>, k: int, level: nat) -> Seq<Seq<char>>
    decreases cs, cs.len() - k,
{
    if k < 0 || k >= cs.len() {
        Seq::empty()
    } else {
        verbose_lines(cs[k], level) + verbose_lines_from(cs, k + 1, level)
    }
}

/// Renders one node in verbose mode.  `pad` is the indent of this node's
/// level and `top` marks the root level, whose files carry no metadata
/// lines.
#[verifier::loop_isolation(false)]
fn verbose_at(tree: &FileTree, pad: &String, top: bool, Ghost(level): Ghost<nat>) -> (lines: Vec<
    String,
>)
    requires
        pad@ == spec_level_pad(level),
        top <==> level == 0,
    ensures
        str_views(lines@) == verbose_lines(tree@, level),
    decreases tree,
{
    match tree {
        FileTree::Directory { name, children } => {
            let mut line = pad.clone();
            line.append("\x1B[34m[");
            line.append(name.as_str());
            line.append("]");
            let ghost hdr = line@;
            let mut lines: Vec<String> = Vec::new();
            lines.push(line);
            let mut cpad = pad.clone();
            cpad.append("    ");
            proof {
                assert(cpad@ == spec_level_pad(level + 1));
                lemma_views_of(children@);
            }
            let ghost cs = views_of(children@);
            proof {
                assert(str_views(lines@) =~= seq![hdr]);
            }
            let n = children.len();
            let mut i: usize = 0;
            while i < n
                invariant
                    i <= n,
                    str_views(lines@) + verbose_lines_from(cs, i as int, level + 1) == seq![hdr]
                        + verbose_lines_from(cs, 0, level + 1),
                decreases n - i,
            {
                proof {
                    assert(decreases_to!(*tree => *children));
                    assert(decreases_to!(*children => children[i as int]));
                }
                let mut sub = verbose_at(&children[i], &cpad, false, Ghost(level + 1));
                proof {
                    let ghost a = lines@;
                    let ghost b = sub@;
                    lemma_str_views_app(a, b);
                    assert(verbose_lines_from(cs, i as int, level + 1) == verbose_lines(
                        cs[i as int],
                        level + 1,
                    ) + verbose_lines_from(cs, i as int + 1, level + 1));
                    assert(str_views(b) == verbose_lines(cs[i as int], level + 1));
                    assert((str_views(a) + str_views(b)) + verbose_lines_from(
                        cs,
                        i as int + 1,
                        level + 1,
                    ) =~= str_views(a) + (str_views(b) + verbose_lines_from(
                        cs,
                        i as int + 1,
                        level + 1,
                    )));
                }
                lines.append(&mut sub);
                i = i + 1;
            }
            proof {
                assert(verbose_lines_from(cs, n as int, level + 1) =~= Seq::<Seq<char>>::empty());
                assert(str_views(lines@) + Seq::<Seq<char>>::empty() =~= str_views(lines@));
            }
            let ghost before = lines@;
            lines.push(String::from_str("\x1B[0m"));
            proof {
                lemma_str_views_push(before, lines@.last());
                assert(lines@ == before.push(lines@.last()));
                assert(str_views(before).push("\x1B[0m"@) =~= str_views(before) + seq![
                    "\x1B[0m"@,
                ]);
                assert((seq![hdr] + verbose_lines_from(cs, 0, level + 1)) + seq!["\x1B[0m"@]
                    =~= verbose_lines(tree@, level));
            }
            lines
        },
        FileTree::File(info) => {
            let mut line = pad.clone();
            line.append("\x1B[32m");
            line.append(info.file_name.as_str());
            let mut lines: Vec<String> = Vec::new();
            lines.push(line);
            if !top {
                let mut path_line = String::from_str("Path: ");
                path_line.append(info.path.as_str());
                lines.push(path_line);
                let mut size_line = String::from_str("Size: ");
                let size_dec = u64_to_dec(info.size);
                size_line.append(size_dec.as_str());
                size_line.append(" bytes");
                lines.push(size_line);
                let mut stamp_line = String::from_str("Last modified: ");
                let stamp_dec = u64_to_dec(info.modified);
                stamp_line.append(stamp_dec.as_str());
                lines.push(stamp_line);
                proof {
                    assert(str_views(lines@) =~= verbose_lines(tree@, level));
                }
            } else {
                proof {
                    assert(str_views(lines@) + Seq::<Seq<char>>::empty() =~= str_views(lines@));
                    assert(str_views(lines@) =~= verbose_lines(tree@, level));
                }
            }
            lines
        },
    }
}

/// Renders a whole tree in verbose mode, one element per output line.
pub fn print_file_tree_long(tree: &FileTree) -> (lines: Vec<String>)
    ensures
        str_views(lines@) == verbose_lines(tree@, 0),
{
    let pad = String::new();
    verbose_at(tree, &pad, true, Ghost(0nat))
}

/// Renders a whole tree in compact mode, one element per output line.
pub fn print_file_tree(tree: &FileTree) -> (lines: Vec<String>)
    ensures
        str_views(lines@) == compact_lines(tree@, 0, false, Seq::empty()),
{
    let flags: Vec<bool> = Vec::new();
    compact_at(tree, true, false, &flags)
}

/// Rendering is deterministic: a fixed tree always yields the same
/// lines, in either mode.  The renderers' postconditions pin their
/// output to `compact_lines` and `verbose_lines`, which are functions of
/// the tree alone, so two renderings of one tree are equal line for
/// line.
pub proof fn lemma_render_deterministic(a: TreeView, b: TreeView)
    requires
        a == b,
    ensures
        compact_lines(a, 0, false, Seq::empty()) == compact_lines(b, 0, false, Seq::empty()),
        verbose_lines(a, 0) == verbose_lines(b, 0),
{
}

/// Every node's compact rendering is nonempty and begins with the
/// node's own line.
pub proof fn lemma_compact_first_line(t: TreeView, depth: nat, last: bool, flags: Seq<bool>)
    ensures
        compact_lines(t, depth, last, flags).len() >= 1,
        compact_lines(t, depth, last, flags)[0] == compact_node_line(t, depth, last, flags),
{
    match t {
        TreeView::Directory { name, children } => {
            assert(compact_lines(t, depth, last, flags) == seq![
                compact_node_line(t, depth, last, flags),
            ] + compact_lines_from(children, 0, depth + 1, child_flags(depth, last, flags)));
        },
        TreeView::File(_) => {
        },
    }
}

/// Where the lines of the child at index `j` begin, within the lines of
/// its parent's children: right after the lines of the children before
/// it.
pub open spec fn block_start(cs: Seq<TreeView>, j: int, depth: nat, flags: Seq<bool>) -> int
    decreases j,
{
    if j <= 0 {
        0
    } else {
        block_start(cs, j - 1, depth, flags) + compact_lines(
            cs[j - 1],
            depth,
            j - 1 == cs.len() - 1,
            flags,
        ).len()
    }
}

/// Within the joined compact lines of the children from index `k` on,
/// the child at index `j` contributes its own line at its block's
/// start, rendered as a last child exactly where `j` is the final
/// index.
proof fn lemma_child_blocks(cs: Seq<TreeView>, k: int, j: int, depth: nat, flags: Seq<bool>)
    requires
        0 <= k <= j < cs.len(),
    ensures
        ({
            let whole = compact_lines_from(cs, k, depth, flags);
            let off = block_start(cs, j, depth, flags) - block_start(cs, k, depth, flags);
            &&& 0 <= off < whole.len()
            &&& whole[off] == compact_node_line(cs[j], depth, j == cs.len() - 1, flags)
        }),
    decreases j - k,
{
    let whole = compact_lines_from(cs, k, depth, flags);
    let head = compact_lines(cs[k], depth, k == cs.len() - 1, flags);
    let rest = compact_lines_from(cs, k + 1, depth, flags);
    assert(whole == head + rest);
    lemma_compact_first_line(cs[k], depth, k == cs.len() - 1, flags);
    if j == k {
        assert(whole[0] == head[0]);
    } else {
        lemma_child_blocks(cs, k + 1, j, depth, flags);
        assert(block_start(cs, k + 1, depth, flags) == block_start(cs, k, depth, flags)
            + head.len());
        let off = block_start(cs, j, depth, flags) - block_start(cs, k, depth, flags);
        assert(whole[off] == rest[off - head.len()]);
    }
}

/// Branch-glyph correctness: in a directory's compact rendering, the
/// child at index `j` prints its own line right after the lines of the
/// children before it; that line is composed for a last child exactly
/// where `j` is the final index, so exactly one child per directory
/// carries the terminal glyph, every other child the continuing glyph,
/// and the ancestor flags handed down — and with them the padding —
/// record the directory's own last/continuing status.
pub proof fn lemma_branch_glyphs(
    name: Seq<char>,
    cs: Seq<TreeView>,
    depth: nat,
    last: bool,
    flags: Seq<bool>,
    j: int,
)
    requires
        0 <= j < cs.len(),
    ensures
        ({
            let lines = compact_lines(
                TreeView::Directory { name, children: cs },
                depth,
                last,
                flags,
            );
            let cf = child_flags(depth, last, flags);
            let pos = 1 + block_start(cs, j, depth + 1, cf);
            &&& 0 < pos < lines.len()
            &&& lines[pos] == compact_node_line(cs[j], depth + 1, j == cs.len() - 1, cf)
            &&& spec_prefix(depth + 1, j == cs.len() - 1) == (if j == cs.len() - 1 {
                "└── "@
            } else {
                "├── "@
            })
        }),
{
    let t = TreeView::Directory { name, children: cs };
    let cf = child_flags(depth, last, flags);
    let own = compact_node_line(t, depth, last, flags);
    let from_all = compact_lines_from(cs, 0, depth + 1, cf);
    assert(compact_lines(t, depth, last, flags) == seq![own] + from_all);
    lemma_child_blocks(cs, 0, j, depth + 1, cf);
    assert(block_start(cs, 0, depth + 1, cf) == 0);
    let pos = 1 + block_start(cs, j, depth + 1, cf);
    assert(compact_lines(t, depth, last, flags)[pos] == from_all[pos - 1]);
}

} // verus!
