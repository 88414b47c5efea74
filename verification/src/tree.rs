//! The tree of the files of a package, as far as extraction needs it: names,
//! kinds, and which node holds which.

use crate::text::{from_chars, to_chars};
use vstd::prelude::*;

verus! {

/// The kind of a node.
#[derive(Debug, Clone, Copy, PartialEq, Eq, Structural)]
pub enum NodeKind {
    File,
    Directory,
}

/// A node of the tree. Only a directory has children.
#[derive(Debug)]
pub struct Node {
    pub name: String,
    pub kind: NodeKind,
    pub children: Vec<Node>,
}

/// What a [`Node`] stands for.
pub struct NodeModel {
    pub name: Seq<char>,
    pub kind: NodeKind,
    pub children: Seq<NodeModel>,
}

impl View for Node {
    type V = NodeModel;

    open spec fn view(&self) -> NodeModel
        decreases self,
    {
        NodeModel {
            name: self.name@,
            kind: self.kind,
            children: Seq::new(
                self.children@.len(),
                |i: int|
                    if 0 <= i < self.children@.len() {
                        self.children@[i].view()
                    } else {
                        NodeModel { name: Seq::empty(), kind: NodeKind::File, children: Seq::empty() }
                    },
            ),
        }
    }
}

/// The paths of the files among the first `count` of `children`, which lie
/// in the directory with the path `directory`. The path of a directory ends
/// with a slash.
pub open spec fn files_among(children: Seq<NodeModel>, directory: Seq<char>, count: nat) -> Seq<
    Seq<char>,
>
    decreases count,
{
    if count == 0 || count > children.len() {
        Seq::empty()
    } else {
        let before = files_among(children, directory, (count - 1) as nat);
        if children[count - 1].kind is File {
            before.push(directory + children[count - 1].name)
        } else {
            before
        }
    }
}

/// The paths of the files in the directories among the first `count` of
/// `children`, and in the directories inside those.
pub open spec fn files_below(children: Seq<NodeModel>, directory: Seq<char>, count: nat) -> Seq<
    Seq<char>,
>
    decreases children, count,
{
    if count == 0 || count > children.len() {
        Seq::empty()
    } else {
        let before = files_below(children, directory, (count - 1) as nat);
        let child = children[count - 1];
        if child.kind is Directory {
            before + files_in(child, directory + child.name + seq!['/'], true)
        } else {
            before
        }
    }
}

/// The paths of the files to extract from the directory `node`, whose path
/// is `directory`, in the order of extraction: the files of the directory
/// itself, then, if `recursive`, those of each directory inside it.
pub open spec fn files_in(node: NodeModel, directory: Seq<char>, recursive: bool) -> Seq<Seq<char>>
    decreases node,
{
    let own = files_among(node.children, directory, node.children.len());
    if recursive {
        own + files_below(node.children, directory, node.children.len())
    } else {
        own
    }
}

/// The texts of `strings`.
pub open spec fn texts(strings: Seq<String>) -> Seq<Seq<char>> {
    Seq::new(strings.len(), |i: int| strings[i]@)
}

fn join(directory: &Vec<char>, name: &str, slash: bool) -> (path: Vec<char>)
    ensures
        path@ == directory@ + name@ + (if slash {
            seq!['/']
        } else {
            Seq::<char>::empty()
        }),
{
    let name_chars = to_chars(name);
    let mut path: Vec<char> = Vec::new();
    let mut i: usize = 0;
    while i < directory.len()
        invariant
            0 <= i <= directory@.len(),
            path@ == directory@.take(i as int),
        decreases directory@.len() - i,
    {
        path.push(directory[i]);
        i += 1;
        assert(path@ =~= directory@.take(i as int));
    }
    assert(directory@.take(directory@.len() as int) =~= directory@);
    let mut j: usize = 0;
    while j < name_chars.len()
        invariant
            0 <= j <= name_chars@.len(),
            path@ == directory@ + name_chars@.take(j as int),
        decreases name_chars@.len() - j,
    {
        path.push(name_chars[j]);
        j += 1;
        assert(path@ =~= directory@ + name_chars@.take(j as int));
    }
    assert(name_chars@.take(name_chars@.len() as int) =~= name_chars@);
    if slash {
        path.push('/');
    }
    assert(path@ =~= directory@ + name@ + (if slash {
        seq!['/']
    } else {
        Seq::<char>::empty()
    }));
    path
}

fn collect(node: &Node, directory: &Vec<char>, recursive: bool, files: &mut Vec<String>)
    ensures
        texts(final(files)@) == texts(old(files)@) + files_in(node@, directory@, recursive),
    decreases node,
{
    let ghost start = texts(files@);
    let ghost children = node@.children;
    let count = node.children.len();
    let mut i: usize = 0;
    while i < count
        invariant
            0 <= i <= count,
            count == node.children@.len(),
            children == node@.children,
            children.len() == count,
            texts(files@) == start + files_among(children, directory@, i as nat),
        decreases count - i,
    {
        let child = &node.children[i];
        assert(children[i as int] == child@);
        match child.kind {
            NodeKind::File => {
                let path = join(directory, child.name.as_str(), false);
                let ghost before = files@;
                files.push(from_chars(path.as_slice()));
                assert(path@ =~= directory@ + child.name@);
                assert(texts(files@) =~= texts(before).push(path@));
            },
            NodeKind::Directory => {},
        }
        i += 1;
    }
    if recursive {
        let ghost own = texts(files@);
        let mut j: usize = 0;
        assert(own + files_below(children, directory@, 0) =~= own);
        while j < count
            invariant
                0 <= j <= count,
                count == node.children@.len(),
                children == node@.children,
                children.len() == count,
                own == start + files_among(children, directory@, count as nat),
                texts(files@) == own + files_below(children, directory@, j as nat),
            decreases count - j,
        {
            let child = &node.children[j];
            assert(children[j as int] == child@);
            match child.kind {
                NodeKind::Directory => {
                    let inner = join(directory, child.name.as_str(), true);
                    collect(child, &inner, true, files);
                    assert(texts(files@) =~= own + files_below(
                        children,
                        directory@,
                        (j + 1) as nat,
                    ));
                },
                NodeKind::File => {},
            }
            j += 1;
        }
        assert(texts(files@) =~= start + files_in(node@, directory@, recursive));
    }
}

/// Lists the paths of the files to extract from the directory `node`, whose
/// path is `directory`, in the order of extraction. `directory` ends with a
/// slash, as does the path of every directory.
pub fn collect_files(node: &Node, directory: &str, recursive: bool) -> (files: Vec<String>)
    ensures
        texts(files@) == files_in(node@, directory@, recursive),
{
    let mut files: Vec<String> = Vec::new();
    let directory_chars = to_chars(directory);
    assert(texts(files@) =~= Seq::<Seq<char>>::empty());
    collect(node, &directory_chars, recursive, &mut files);
    assert(texts(files@) =~= files_in(node@, directory@, recursive));
    files
}

} // verus!
