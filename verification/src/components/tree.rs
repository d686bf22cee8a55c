//! The tree of a user's objects: the flat list of nodes that the server
//! sends, and the nested form that is shown.
//!
//! Building the nested form goes through two hash maps keyed by the
//! identifiers of the nodes: for each identifier the node that counts, and
//! for each parent the list of its children.

use crate::json::{find_member, lookup, JsonValue};
use crate::text::{decimal_u64, parse_u64};
use std::collections::HashMap;
use vstd::prelude::*;

verus! {

/// The kind of a node.
#[derive(Debug, Clone, Copy, PartialEq, Eq, Structural)]
pub enum NodeType {
    Root,
    Branch,
    ImageLeaf,
}

/// What is known of an image.
#[derive(Debug, Clone, PartialEq, Eq)]
pub struct ImageData {
    pub hash: Option<String>,
    pub mime_type: Option<String>,
    pub size: Option<u64>,
    pub src: Option<String>,
    pub storage_path: Option<String>,
    pub thumbnail_url: Option<String>,
    pub url: Option<String>,
}

/// What is known of a branch.
#[derive(Debug, Clone, PartialEq, Eq)]
pub struct BranchData {
    pub title: Option<String>,
}

/// The data of a node, read according to its kind.
#[derive(Debug, Clone, PartialEq, Eq)]
pub enum NodeData {
    Branch(BranchData),
    Image(ImageData),
    Empty,
}

/// A node as the server sends it: it names its parent.
#[derive(Debug, Clone, PartialEq, Eq)]
pub struct TreeNode {
    pub id: u128,
    pub parent_id: Option<u128>,
    pub node_type: NodeType,
    pub name: Option<String>,
    pub data: JsonValue,
    pub path: String,
    pub updated_at: String,
    pub depth: i32,
    pub own: bool,
}

/// A node with its children.
#[derive(Debug, PartialEq, Eq)]
pub struct Tree {
    pub id: u128,
    pub node_type: NodeType,
    pub name: Option<String>,
    pub data: NodeData,
    pub raw_data: JsonValue,
    pub path: String,
    pub updated_at: String,
    pub depth: i32,
    pub own: bool,
    pub children: Vec<Tree>,
}

/// Whether two trees hold the same, node for node.
pub open spec fn same_tree(a: Tree, b: Tree) -> bool
    decreases a,
{
    &&& a.id == b.id
    &&& a.node_type == b.node_type
    &&& a.name == b.name
    &&& a.raw_data.content() == b.raw_data.content()
    &&& a.path == b.path
    &&& a.updated_at == b.updated_at
    &&& a.depth == b.depth
    &&& a.own == b.own
    &&& a.children@.len() == b.children@.len()
    &&& forall|k: int|
        0 <= k < a.children@.len() ==> same_tree(#[trigger] a.children@[k], b.children@[k])
}

impl Clone for Tree {
    fn clone(&self) -> (r: Self)
        ensures
            same_tree(*self, r),
        decreases *self,
    {
        let mut children: Vec<Tree> = Vec::new();
        let mut i: usize = 0;
        while i < self.children.len()
            invariant
                i <= self.children.len(),
                children@.len() == i,
                forall|k: int|
                    0 <= k < i ==> same_tree(#[trigger] self.children@[k], children@[k]),
            decreases self.children.len() - i,
        {
            children.push(self.children[i].clone());
            i += 1;
        }
        Tree {
            id: self.id,
            node_type: self.node_type,
            name: clone_name(&self.name),
            data: self.data.clone(),
            raw_data: self.raw_data.clone(),
            path: self.path.clone(),
            updated_at: self.updated_at.clone(),
            depth: self.depth,
            own: self.own,
            children,
        }
    }
}

impl Tree {
    /// The name of the kind of the node.
    pub fn node_type_str(&self) -> (r: &str)
        ensures
            r@ == match self.node_type {
                NodeType::Root => "Root"@,
                NodeType::Branch => "Branch"@,
                NodeType::ImageLeaf => "ImageLeaf"@,
            },
    {
        match self.node_type {
            NodeType::Root => "Root",
            NodeType::Branch => "Branch",
            NodeType::ImageLeaf => "ImageLeaf",
        }
    }
}

/// A value read as an optional string: `Some(None)` for `null`,
/// `Some(Some(s))` for a string, and `None` for anything else.
pub open spec fn text_or_null(v: JsonValue) -> Option<Option<String>> {
    match v {
        JsonValue::Null => Some(None),
        JsonValue::String(s) => Some(Some(s)),
        _ => None,
    }
}

/// A value read as an optional integer of 64 bits without a sign, in the
/// same way.
pub open spec fn u64_or_null(v: JsonValue) -> Option<Option<u64>> {
    match v {
        JsonValue::Null => Some(None),
        JsonValue::Number(n) => match decimal_u64(n@) {
            Some(x) => Some(Some(x as u64)),
            None => None,
        },
        _ => None,
    }
}

/// An optional string member of an object; a member that the object does not
/// have reads like `null`.
pub open spec fn optional_text(members: Seq<(String, JsonValue)>, key: Seq<char>) -> Option<
    Option<String>,
> {
    match lookup(members, key, members.len() as int) {
        None => Some(None),
        Some(v) => text_or_null(v),
    }
}

/// An optional member that is an integer of 64 bits without a sign, in the
/// same way.
pub open spec fn optional_u64(members: Seq<(String, JsonValue)>, key: Seq<char>) -> Option<
    Option<u64>,
> {
    match lookup(members, key, members.len() as int) {
        None => Some(None),
        Some(v) => u64_or_null(v),
    }
}

/// The image with the fields given, where every one of them could be read.
pub open spec fn image_of_fields(
    hash: Option<Option<String>>,
    mime_type: Option<Option<String>>,
    size: Option<Option<u64>>,
    src: Option<Option<String>>,
    storage_path: Option<Option<String>>,
    thumbnail_url: Option<Option<String>>,
    url: Option<Option<String>>,
) -> Option<ImageData> {
    match (hash, mime_type, size, src, storage_path, thumbnail_url, url) {
        (
            Some(hash),
            Some(mime_type),
            Some(size),
            Some(src),
            Some(storage_path),
            Some(thumbnail_url),
            Some(url),
        ) => Some(ImageData { hash, mime_type, size, src, storage_path, thumbnail_url, url }),
        _ => None,
    }
}

/// The image that a value describes.
///
/// An object gives each field under its name; unknown members are passed
/// over. An array gives the seven fields in the order of their declaration
/// and has exactly seven elements. Either way a field is `null` or of its
/// type. Any other value, and one with a field of another type, describes
/// no image.
pub open spec fn image_data_of(raw: JsonValue) -> Option<ImageData> {
    match raw {
        JsonValue::Object(members) => image_of_fields(
            optional_text(members@, "hash"@),
            optional_text(members@, "mime_type"@),
            optional_u64(members@, "size"@),
            optional_text(members@, "src"@),
            optional_text(members@, "storage_path"@),
            optional_text(members@, "thumbnail_url"@),
            optional_text(members@, "url"@),
        ),
        JsonValue::Array(items) => if items@.len() == 7 {
            image_of_fields(
                text_or_null(items@[0]),
                text_or_null(items@[1]),
                u64_or_null(items@[2]),
                text_or_null(items@[3]),
                text_or_null(items@[4]),
                text_or_null(items@[5]),
                text_or_null(items@[6]),
            )
        } else {
            None
        },
        _ => None,
    }
}

/// The title that a value gives for a branch: `None` where the value
/// describes no branch.
///
/// An object gives the title under its name, an array of exactly one
/// element gives it as that element; the title is `null` or a string.
pub open spec fn branch_title_of(raw: JsonValue) -> Option<Option<String>> {
    match raw {
        JsonValue::Object(members) => optional_text(members@, "title"@),
        JsonValue::Array(items) => if items@.len() == 1 {
            text_or_null(items@[0])
        } else {
            None
        },
        _ => None,
    }
}

/// The branch that a value describes.
pub open spec fn branch_data_of(raw: JsonValue) -> Option<BranchData> {
    match branch_title_of(raw) {
        Some(title) => Some(BranchData { title }),
        None => None,
    }
}

/// The data of a node of the given kind: an image for a leaf, a branch for
/// a branch and for a root, and nothing where the value does not describe
/// one.
pub open spec fn node_data_of(node_type: NodeType, raw: JsonValue) -> NodeData {
    match node_type {
        NodeType::ImageLeaf => match image_data_of(raw) {
            Some(image) => NodeData::Image(image),
            None => NodeData::Empty,
        },
        _ => match branch_data_of(raw) {
            Some(branch) => NodeData::Branch(branch),
            None => NodeData::Empty,
        },
    }
}

/// Executable [`text_or_null`].
fn read_text_or_null(v: &JsonValue) -> (r: Option<Option<String>>)
    ensures
        r == text_or_null(*v),
{
    match v {
        JsonValue::Null => Some(None),
        JsonValue::String(s) => Some(Some(s.clone())),
        _ => None,
    }
}

/// Executable [`u64_or_null`].
fn read_u64_or_null(v: &JsonValue) -> (r: Option<Option<u64>>)
    ensures
        r == u64_or_null(*v),
{
    match v {
        JsonValue::Null => Some(None),
        JsonValue::Number(n) => match parse_u64(n.as_str()) {
            Some(x) => Some(Some(x)),
            None => None,
        },
        _ => None,
    }
}

/// Executable [`optional_text`].
fn read_optional_text(members: &Vec<(String, JsonValue)>, key: &str) -> (r: Option<Option<String>>)
    ensures
        r == optional_text(members@, key@),
{
    match find_member(members, key) {
        None => Some(None),
        Some(i) => read_text_or_null(&members[i].1),
    }
}

/// Executable [`optional_u64`].
fn read_optional_u64(members: &Vec<(String, JsonValue)>, key: &str) -> (r: Option<Option<u64>>)
    ensures
        r == optional_u64(members@, key@),
{
    match find_member(members, key) {
        None => Some(None),
        Some(i) => read_u64_or_null(&members[i].1),
    }
}

/// Executable [`image_of_fields`].
fn image_from_fields(
    hash: Option<Option<String>>,
    mime_type: Option<Option<String>>,
    size: Option<Option<u64>>,
    src: Option<Option<String>>,
    storage_path: Option<Option<String>>,
    thumbnail_url: Option<Option<String>>,
    url: Option<Option<String>>,
) -> (r: Option<ImageData>)
    ensures
        r == image_of_fields(hash, mime_type, size, src, storage_path, thumbnail_url, url),
{
    match (hash, mime_type, size, src, storage_path, thumbnail_url, url) {
        (
            Some(hash),
            Some(mime_type),
            Some(size),
            Some(src),
            Some(storage_path),
            Some(thumbnail_url),
            Some(url),
        ) => Some(ImageData { hash, mime_type, size, src, storage_path, thumbnail_url, url }),
        _ => None,
    }
}

/// Executable [`image_data_of`].
fn read_image_data(raw: &JsonValue) -> (r: Option<ImageData>)
    ensures
        r == image_data_of(*raw),
{
    match raw {
        JsonValue::Object(members) => image_from_fields(
            read_optional_text(members, "hash"),
            read_optional_text(members, "mime_type"),
            read_optional_u64(members, "size"),
            read_optional_text(members, "src"),
            read_optional_text(members, "storage_path"),
            read_optional_text(members, "thumbnail_url"),
            read_optional_text(members, "url"),
        ),
        JsonValue::Array(items) => {
            if items.len() == 7 {
                image_from_fields(
                    read_text_or_null(&items[0]),
                    read_text_or_null(&items[1]),
                    read_u64_or_null(&items[2]),
                    read_text_or_null(&items[3]),
                    read_text_or_null(&items[4]),
                    read_text_or_null(&items[5]),
                    read_text_or_null(&items[6]),
                )
            } else {
                None
            }
        },
        _ => None,
    }
}

/// Executable [`branch_title_of`].
fn read_branch_title(raw: &JsonValue) -> (r: Option<Option<String>>)
    ensures
        r == branch_title_of(*raw),
{
    match raw {
        JsonValue::Object(members) => read_optional_text(members, "title"),
        JsonValue::Array(items) => {
            if items.len() == 1 {
                read_text_or_null(&items[0])
            } else {
                None
            }
        },
        _ => None,
    }
}

/// Reads the data of a node according to its kind.
pub fn parse_node_data(node_type: NodeType, raw_data: &JsonValue) -> (r: NodeData)
    ensures
        r == node_data_of(node_type, *raw_data),
{
    match node_type {
        NodeType::ImageLeaf => match read_image_data(raw_data) {
            Some(image) => NodeData::Image(image),
            None => NodeData::Empty,
        },
        _ => match read_branch_title(raw_data) {
            Some(title) => NodeData::Branch(BranchData { title }),
            None => NodeData::Empty,
        },
    }
}

/// Whether node `i` is the last one in the list with its identifier. Of
/// nodes with the same identifier only the last one counts.
pub open spec fn live(nodes: Seq<TreeNode>, i: int) -> bool {
    &&& 0 <= i < nodes.len()
    &&& forall|j: int| i < j < nodes.len() ==> (#[trigger] nodes[j]).id != nodes[i].id
}

/// Whether node `i` is shown below `parent`: it counts, it is no root, and
/// it names `parent` as its parent.
pub open spec fn child_of(nodes: Seq<TreeNode>, i: int, parent: u128) -> bool {
    live(nodes, i) && nodes[i].node_type != NodeType::Root && nodes[i].parent_id == Some(parent)
}

/// The indices of the children of `parent` among the first `n` nodes, in
/// the order of the list.
pub open spec fn children_upto(nodes: Seq<TreeNode>, parent: u128, n: int) -> Seq<int>
    decreases n,
{
    if n <= 0 {
        Seq::empty()
    } else if child_of(nodes, n - 1, parent) {
        children_upto(nodes, parent, n - 1).push(n - 1)
    } else {
        children_upto(nodes, parent, n - 1)
    }
}

/// The indices of the children of `parent`.
pub open spec fn children_of(nodes: Seq<TreeNode>, parent: u128) -> Seq<int> {
    children_upto(nodes, parent, nodes.len() as int)
}

/// The indices of the nodes at the top, looking at the roots among the
/// first `n` nodes: the children of each root that counts, root by root in
/// the order of the list.
pub open spec fn top_upto(nodes: Seq<TreeNode>, n: int) -> Seq<int>
    decreases n,
{
    if n <= 0 {
        Seq::empty()
    } else if live(nodes, n - 1) && nodes[n - 1].node_type == NodeType::Root {
        top_upto(nodes, n - 1) + children_of(nodes, nodes[n - 1].id)
    } else {
        top_upto(nodes, n - 1)
    }
}

/// Whether a tree shows a node: it has what the node has, and its data is
/// the node's data read according to the node's kind.
pub open spec fn shows(t: Tree, node: TreeNode) -> bool {
    &&& t.id == node.id
    &&& t.node_type == node.node_type
    &&& t.name == node.name
    &&& t.data == node_data_of(node.node_type, node.data)
    &&& t.raw_data.content() == node.data.content()
    &&& t.path == node.path
    &&& t.updated_at == node.updated_at
    &&& t.depth == node.depth
    &&& t.own == node.own
}

/// Whether `t` is the tree below node `i`, built `levels` levels deep: it
/// shows the node, and its children are the trees below the node's
/// children, in order, one level less deep. A tree of no levels has no
/// children.
pub open spec fn is_subtree(t: Tree, nodes: Seq<TreeNode>, i: int, levels: nat) -> bool
    decreases levels,
{
    &&& 0 <= i < nodes.len()
    &&& shows(t, nodes[i])
    &&& if levels == 0 {
        t.children@.len() == 0
    } else {
        let kids = children_of(nodes, nodes[i].id);
        &&& t.children@.len() == kids.len()
        &&& forall|k: int|
            0 <= k < kids.len() ==> is_subtree(
                #[trigger] t.children@[k],
                nodes,
                kids[k],
                (levels - 1) as nat,
            )
    }
}

/// Whether `trees` are the trees below the nodes with the indices given,
/// in order.
pub open spec fn are_subtrees(
    trees: Seq<Tree>,
    nodes: Seq<TreeNode>,
    indices: Seq<int>,
    levels: nat,
) -> bool {
    &&& trees.len() == indices.len()
    &&& forall|k: int|
        0 <= k < indices.len() ==> is_subtree(#[trigger] trees[k], nodes, indices[k], levels)
}

/// Whether `last` gives for each identifier in the list the index of the
/// last node with it, and holds nothing else.
pub open spec fn gives_last(nodes: Seq<TreeNode>, last: Map<u128, usize>) -> bool {
    &&& forall|i: int| 0 <= i < nodes.len() ==> last.contains_key((#[trigger] nodes[i]).id)
    &&& forall|id: u128| #[trigger]
        last.contains_key(id) ==> last[id] < nodes.len() && nodes[last[id] as int].id == id
            && live(nodes, last[id] as int)
}

/// Whether `list` holds the indices `wanted`, all of them below `bound`.
pub open spec fn same_indices(list: Seq<usize>, wanted: Seq<int>, bound: int) -> bool {
    &&& list.len() == wanted.len()
    &&& forall|k: int| 0 <= k < list.len() ==> (#[trigger] list[k]) as int == wanted[k] && list[k] < bound
}

/// Whether `kids` gives for `parent` its children among the first `n`
/// nodes: their list, or no list where there are none.
pub open spec fn gives_children(
    nodes: Seq<TreeNode>,
    kids: Map<u128, Vec<usize>>,
    parent: u128,
    n: int,
) -> bool {
    if kids.contains_key(parent) {
        same_indices(kids[parent]@, children_upto(nodes, parent, n), nodes.len() as int)
    } else {
        children_upto(nodes, parent, n).len() == 0
    }
}

/// A node counts exactly if the map of last indices names it.
proof fn lemma_live_is_last(nodes: Seq<TreeNode>, last: Map<u128, usize>, i: int)
    requires
        gives_last(nodes, last),
        0 <= i < nodes.len(),
    ensures
        live(nodes, i) <==> last[nodes[i].id] == i,
{
}

/// For each identifier the index of the last node with it.
fn last_indices(nodes: &Vec<TreeNode>) -> (last: HashMap<u128, usize>)
    ensures
        gives_last(nodes@, last@),
{
    broadcast use vstd::std_specs::hash::group_hash_axioms;

    let mut last: HashMap<u128, usize> = HashMap::new();
    let mut i: usize = 0;
    while i < nodes.len()
        invariant
            i <= nodes.len(),
            forall|j: int| 0 <= j < i ==> last@.contains_key((#[trigger] nodes@[j]).id),
            forall|id: u128| #[trigger]
                last@.contains_key(id) ==> last@[id] < i && nodes@[last@[id] as int].id == id
                    && forall|j: int| last@[id] < j < i ==> (#[trigger] nodes@[j]).id != id,
        decreases nodes.len() - i,
    {
        last.insert(nodes[i].id, i);
        i += 1;
    }
    last
}

/// For each identifier the indices of its children, in the order of the
/// list.
fn child_lists(nodes: &Vec<TreeNode>, last: &HashMap<u128, usize>) -> (kids: HashMap<
    u128,
    Vec<usize>,
>)
    requires
        gives_last(nodes@, last@),
    ensures
        forall|parent: u128| gives_children(nodes@, kids@, parent, nodes@.len() as int),
{
    broadcast use vstd::std_specs::hash::group_hash_axioms;

    let mut kids: HashMap<u128, Vec<usize>> = HashMap::new();
    let mut i: usize = 0;
    while i < nodes.len()
        invariant
            i <= nodes.len(),
            gives_last(nodes@, last@),
            forall|parent: u128| gives_children(nodes@, kids@, parent, i as int),
        decreases nodes.len() - i,
    {
        let ghost before = kids@;
        let ghost next: int = i + 1;
        proof {
            lemma_live_is_last(nodes@, last@, i as int);
        }
        let counts = nodes[i].node_type != NodeType::Root && match last.get(&nodes[i].id) {
            Some(at) => *at == i,
            None => false,
        };
        match nodes[i].parent_id {
            Some(p) => {
                if counts {
                    let mut list = match kids.remove(&p) {
                        Some(l) => l,
                        None => Vec::new(),
                    };
                    list.push(i);
                    kids.insert(p, list);
                    assert forall|parent: u128| gives_children(nodes@, kids@, parent, next) by {
                        assert(gives_children(nodes@, before, parent, i as int));
                    }
                } else {
                    assert forall|parent: u128| gives_children(nodes@, kids@, parent, next) by {
                        assert(gives_children(nodes@, before, parent, i as int));
                    }
                }
            },
            None => {
                assert forall|parent: u128| gives_children(nodes@, kids@, parent, next) by {
                    assert(gives_children(nodes@, before, parent, i as int));
                }
            },
        }
        i += 1;
    }
    kids
}

/// A copy of an optional string.
fn clone_name(s: &Option<String>) -> (r: Option<String>)
    ensures
        r == *s,
{
    match s {
        Some(x) => Some(x.clone()),
        None => None,
    }
}

/// The tree below node `i`, built `levels` levels deep.
fn build_subtree(
    nodes: &Vec<TreeNode>,
    kids: &HashMap<u128, Vec<usize>>,
    i: usize,
    levels: usize,
) -> (t: Tree)
    requires
        i < nodes.len(),
        forall|parent: u128| gives_children(nodes@, kids@, parent, nodes@.len() as int),
    ensures
        is_subtree(t, nodes@, i as int, levels as nat),
    decreases levels,
{
    broadcast use vstd::std_specs::hash::group_hash_axioms;

    let node = &nodes[i];
    let mut children: Vec<Tree> = Vec::new();
    if levels > 0 {
        let ghost wanted = children_of(nodes@, node.id);
        assert(gives_children(nodes@, kids@, node.id, nodes@.len() as int));
        if let Some(list) = kids.get(&node.id) {
            let mut k: usize = 0;
            while k < list.len()
                invariant
                    k <= list.len(),
                    levels > 0,
                    same_indices(list@, wanted, nodes@.len() as int),
                    forall|parent: u128|
                        gives_children(nodes@, kids@, parent, nodes@.len() as int),
                    children@.len() == k,
                    forall|j: int|
                        0 <= j < k ==> is_subtree(
                            #[trigger] children@[j],
                            nodes@,
                            wanted[j],
                            (levels - 1) as nat,
                        ),
                decreases list.len() - k,
            {
                let child = build_subtree(nodes, kids, list[k], levels - 1);
                children.push(child);
                k += 1;
            }
        }
    }
    Tree {
        id: node.id,
        node_type: node.node_type,
        name: clone_name(&node.name),
        data: parse_node_data(node.node_type, &node.data),
        raw_data: node.data.clone(),
        path: node.path.clone(),
        updated_at: node.updated_at.clone(),
        depth: node.depth,
        own: node.own,
        children,
    }
}

/// Turns a flat list of nodes into trees.
///
/// The roots themselves are left out: the trees at the top are those below
/// the children of the roots, root by root and child by child in the order
/// of the list. Of nodes with one identifier the last counts. A node that no
/// chain of parents connects to a root is in no tree. No tree is built
/// deeper than the list is long.
pub fn build_tree(nodes: Vec<TreeNode>) -> (trees: Vec<Tree>)
    ensures
        are_subtrees(
            trees@,
            nodes@,
            top_upto(nodes@, nodes@.len() as int),
            nodes@.len(),
        ),
{
    broadcast use vstd::std_specs::hash::group_hash_axioms;

    let levels = nodes.len();
    let last = last_indices(&nodes);
    let kids = child_lists(&nodes, &last);
    let mut trees: Vec<Tree> = Vec::new();
    let mut r: usize = 0;
    while r < nodes.len()
        invariant
            r <= nodes.len(),
            levels == nodes.len(),
            gives_last(nodes@, last@),
            forall|parent: u128| gives_children(nodes@, kids@, parent, nodes@.len() as int),
            are_subtrees(trees@, nodes@, top_upto(nodes@, r as int), levels as nat),
        decreases nodes.len() - r,
    {
        proof {
            lemma_live_is_last(nodes@, last@, r as int);
        }
        let is_root = nodes[r].node_type == NodeType::Root && match last.get(&nodes[r].id) {
            Some(at) => *at == r,
            None => false,
        };
        if is_root {
            let ghost wanted = children_of(nodes@, nodes@[r as int].id);
            let ghost before = top_upto(nodes@, r as int);
            let ghost built = trees@;
            assert(gives_children(nodes@, kids@, nodes@[r as int].id, nodes@.len() as int));
            if let Some(list) = kids.get(&nodes[r].id) {
                let mut k: usize = 0;
                while k < list.len()
                    invariant
                        k <= list.len(),
                        r < nodes.len(),
                        levels == nodes.len(),
                        same_indices(list@, wanted, nodes@.len() as int),
                        forall|parent: u128|
                            gives_children(nodes@, kids@, parent, nodes@.len() as int),
                        are_subtrees(built, nodes@, before, levels as nat),
                        trees@.len() == built.len() + k,
                        forall|j: int| 0 <= j < built.len() ==> trees@[j] == built[j],
                        forall|j: int|
                            0 <= j < k ==> is_subtree(
                                #[trigger] trees@[built.len() + j],
                                nodes@,
                                wanted[j],
                                levels as nat,
                            ),
                    decreases list.len() - k,
                {
                    let t = build_subtree(&nodes, &kids, list[k], levels);
                    trees.push(t);
                    k += 1;
                }
            }
            assert(are_subtrees(trees@, nodes@, before + wanted, levels as nat)) by {
                assert forall|j: int| 0 <= j < (before + wanted).len() implies is_subtree(
                    #[trigger] trees@[j],
                    nodes@,
                    (before + wanted)[j],
                    levels as nat,
                ) by {
                    if j < before.len() {
                        assert(trees@[j] == built[j]);
                    } else {
                        assert(trees@[built.len() + (j - built.len())] == trees@[j]);
                    }
                }
            }
        }
        r += 1;
    }
    trees
}

} // verus!
