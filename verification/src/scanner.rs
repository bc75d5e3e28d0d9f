//! Repository discovery over a directory tree.
//!
//! The scan works on an in-memory picture of the tree: each node is a
//! directory with its name, a flag saying whether it holds a `.git` entry,
//! and its subdirectories. The callers that walk the real filesystem build
//! this picture and hand it in.

use vstd::prelude::*;

verus! {

broadcast use vstd::std_specs::vec::axiom_vec_index_decreases, vstd::std_specs::vec::axiom_vec_decreases_to_view;

/// A directory-entry name is hidden when it starts with `.` and is neither
/// `.` itself nor `..`.
pub open spec fn spec_hidden_name(name: Seq<char>) -> bool {
    name.len() > 0 && name[0] == '.' && !(name.len() == 1) && !(name.len() == 2 && name[1] == '.')
}

/// Decides whether a directory-entry name counts as hidden, so that the scan
/// neither descends into it nor reports it.
pub fn is_hidden_name(name: &str) -> (r: bool)
    ensures
        r == spec_hidden_name(name@),
{
    let n = name.unicode_len();
    if n == 0 {
        return false;
    }
    if name.get_char(0) != '.' {
        return false;
    }
    if n == 1 {
        return false;
    }
    if n == 2 && name.get_char(1) == '.' {
        return false;
    }
    true
}

/// One directory of the scanned tree: its entry name, whether it holds a
/// `.git` entry (of any kind) and so is a repository root, and its
/// subdirectories.
#[derive(Debug)]
pub struct DirNode {
    pub name: String,
    pub has_git: bool,
    pub subdirs: Vec<DirNode>,
}

/// The path of a child entry: the parent's path, a separator, the name.
pub open spec fn spec_child_path(parent: Seq<char>, name: Seq<char>) -> Seq<char> {
    parent + seq!['/'] + name
}

/// What the scan reports under a node standing at `path`: a hidden name
/// prunes the node and all below it; a `.git` marker reports the node and
/// stops the descent (a repository cannot hold a nested tracked repository);
/// otherwise the subdirectories are scanned in order.
pub open spec fn spec_scan_node(node: DirNode, path: Seq<char>) -> Seq<Seq<char>>
    decreases node, 0int,
{
    if spec_hidden_name(node.name@) {
        Seq::empty()
    } else if node.has_git {
        seq![path]
    } else {
        spec_scan_list(node.subdirs@, path, 0)
    }
}

/// What the scan reports under the children of a directory at `parent`,
/// from child `i` on.
pub open spec fn spec_scan_list(nodes: Seq<DirNode>, parent: Seq<char>, i: int) -> Seq<Seq<char>>
    decreases nodes, nodes.len() - i + 1,
{
    if i < 0 || i >= nodes.len() {
        Seq::empty()
    } else {
        spec_scan_node(nodes[i], spec_child_path(parent, nodes[i].name@)) + spec_scan_list(
            nodes,
            parent,
            i + 1,
        )
    }
}

/// What a whole scan reports: a root that itself holds a `.git` entry is the
/// single repository, whatever its name; otherwise its subdirectories are
/// scanned.
pub open spec fn spec_scan_repositories(root: DirNode, path: Seq<char>) -> Seq<Seq<char>> {
    if root.has_git {
        seq![path]
    } else {
        spec_scan_list(root.subdirs@, path, 0)
    }
}

/// Appends to `out` the repository paths found under `node`, which stands at
/// `path`.
fn scan_node(node: &DirNode, path: &String, out: &mut Vec<String>)
    ensures
        final(out).deep_view() == old(out).deep_view() + spec_scan_node(*node, path@),
    decreases *node, 0int,
{
    if is_hidden_name(node.name.as_str()) {
        proof {
            assert(out.deep_view() =~= old(out).deep_view() + spec_scan_node(*node, path@));
        }
        return ;
    }
    if node.has_git {
        out.push(path.clone());
        proof {
            assert(out.deep_view() =~= old(out).deep_view() + spec_scan_node(*node, path@));
        }
        return ;
    }
    scan_list(&node.subdirs, path, out);
}

/// Appends to `out` the repository paths found under the children of the
/// directory at `parent`.
fn scan_list(nodes: &Vec<DirNode>, parent: &String, out: &mut Vec<String>)
    ensures
        final(out).deep_view() == old(out).deep_view() + spec_scan_list(nodes@, parent@, 0),
    decreases nodes@, nodes@.len() + 1,
{
    let n = nodes.len();
    let mut i: usize = 0;
    proof {
        assert(out.deep_view() + spec_scan_list(nodes@, parent@, 0) =~= old(out).deep_view()
            + spec_scan_list(nodes@, parent@, 0));
    }
    while i < n
        invariant
            0 <= i <= n,
            n == nodes@.len(),
            out.deep_view() + spec_scan_list(nodes@, parent@, i as int) == old(out).deep_view()
                + spec_scan_list(nodes@, parent@, 0),
        decreases n - i,
    {
        let child = &nodes[i];
        let mut cp = parent.clone();
        cp.append("/");
        cp.append(child.name.as_str());
        proof {
            reveal_strlit("/");
            assert("/"@ =~= seq!['/']);
            assert(cp@ =~= spec_child_path(parent@, child.name@));
        }
        let ghost pre = out.deep_view();
        scan_node(child, &cp, out);
        proof {
            assert(out.deep_view() + spec_scan_list(nodes@, parent@, i + 1) =~= pre
                + spec_scan_list(nodes@, parent@, i as int));
        }
        i += 1;
    }
    proof {
        assert(spec_scan_list(nodes@, parent@, n as int) =~= Seq::<Seq<char>>::empty());
        assert(out.deep_view() =~= out.deep_view() + spec_scan_list(nodes@, parent@, n as int));
    }
}

/// Scans for repositories under `root`, which stands at `root_path`. A root
/// that itself holds a `.git` entry is reported alone; otherwise every
/// subdirectory is walked, hidden names are pruned, and a found repository's
/// subtree is not descended further.
pub fn scan_repositories(root_path: &String, root: &DirNode) -> (r: Vec<String>)
    ensures
        r.deep_view() == spec_scan_repositories(*root, root_path@),
{
    let mut out: Vec<String> = Vec::new();
    if root.has_git {
        out.push(root_path.clone());
        proof {
            assert(out.deep_view() =~= spec_scan_repositories(*root, root_path@));
        }
        return out;
    }
    proof {
        assert(out.deep_view() =~= Seq::<Seq<char>>::empty());
    }
    scan_list(&root.subdirs, root_path, &mut out);
    proof {
        assert(out.deep_view() =~= spec_scan_repositories(*root, root_path@));
    }
    out
}

} // verus!
