//! The tree of the project panel: nodes by id, each folder listing its
//! children, and the edits the panel makes to it.

use vstd::prelude::*;
use std::collections::HashMap;
use vstd::std_specs::hash::group_hash_axioms;
use vstd::std_specs::iter::IteratorSpec;
use crate::order::seq_lt;
use crate::text::owned;

verus! {

broadcast use group_hash_axioms;

/// A file or folder of the project.
#[derive(Debug)]
pub struct Node {
    pub id: usize,
    pub path: String,
    pub name: String,
    pub method: String,
    pub children: Vec<usize>,
    pub is_file: bool,
}

/// The abstract content of a node.
#[verifier::ext_equal]
pub struct NodeView {
    pub id: usize,
    pub path: Seq<char>,
    pub name: Seq<char>,
    pub method: Seq<char>,
    pub children: Seq<usize>,
    pub is_file: bool,
}

impl View for Node {
    type V = NodeView;

    open spec fn view(&self) -> NodeView {
        NodeView {
            id: self.id,
            path: self.path@,
            name: self.name@,
            method: self.method@,
            children: self.children@,
            is_file: self.is_file,
        }
    }
}

/// The abstract content of a node table.
pub open spec fn nodes_view(m: Map<usize, Node>) -> Map<usize, NodeView> {
    m.map_values(|n: Node| n@)
}

/// Sets the method shown for node `id`; returns whether the node exists.
pub fn update_node_method(nodes: &mut HashMap<usize, Node>, id: usize, method: &str) -> (found: bool)
    ensures
        found == old(nodes)@.contains_key(id),
        found ==> nodes_view(final(nodes)@) == nodes_view(old(nodes)@).insert(
            id,
            NodeView { method: method@, ..old(nodes)@[id]@ },
        ),
        !found ==> final(nodes)@ == old(nodes)@,
{
    let ghost before = nodes@;
    match nodes.remove(&id) {
        Some(n) => {
            let n2 = Node {
                id: n.id,
                path: n.path,
                name: n.name,
                method: owned(method),
                children: n.children,
                is_file: n.is_file,
            };
            nodes.insert(id, n2);
            assert(nodes_view(nodes@) =~= nodes_view(before).insert(
                id,
                NodeView { method: method@, ..before[id]@ },
            ));
            true
        },
        None => false,
    }
}

/// `v` without the entries equal to `x`.
fn without_id(v: &Vec<usize>, x: usize) -> (r: Vec<usize>)
    ensures
        r@ == drop_child(v@, x),
{
    let mut r: Vec<usize> = Vec::new();
    let mut i: usize = 0;
    proof {
        reveal(Seq::filter);
    }
    assert(drop_child(v@.take(0), x) =~= Seq::<usize>::empty());
    while i < v.len()
        invariant
            i <= v@.len(),
            r@ == drop_child(v@.take(i as int), x),
        decreases v@.len() - i,
    {
        proof {
            reveal(Seq::filter);
        }
        assert(v@.take(i + 1).drop_last() =~= v@.take(i as int));
        if v[i] != x {
            r.push(v[i]);
        }
        assert(r@ =~= drop_child(v@.take(i + 1), x));
        i += 1;
    }
    assert(v@.take(v@.len() as int) =~= v@);
    r
}

/// `children` without `id`.
pub open spec fn drop_child(children: Seq<usize>, id: usize) -> Seq<usize> {
    children.filter(|c: usize| c != id)
}

/// The table after removing node `id`: it goes, and no folder lists it.
pub open spec fn remove_node_spec(m: Map<usize, NodeView>, id: usize) -> Map<usize, NodeView> {
    if !m.contains_key(id) {
        m
    } else {
        Map::new(
            |k: usize| m.contains_key(k) && k != id,
            |k: usize| NodeView { children: drop_child(m[k].children, id), ..m[k] },
        )
    }
}

/// The ids of the table, each once.
fn all_ids(nodes: &HashMap<usize, Node>) -> (r: Vec<usize>)
    ensures
        r@.to_set() == nodes@.dom(),
        r@.no_duplicates(),
{
    let mut r: Vec<usize> = Vec::new();
    for k in it: nodes.keys()
        invariant
            it.seq() == vstd::std_specs::hash::spec_keys_iter(nodes).remaining(),
            r@ == it.seq().unref().take(it.index()),
    {
        assert(it.seq().unref().take(it.index() + 1) =~= it.seq().unref().take(it.index()).push(*k));
        r.push(*k);
    }
    let ghost all = vstd::std_specs::hash::spec_keys_iter(nodes).remaining();
    assert(r@ =~= all.unref());
    r
}

/// Removes node `id` and its entry in every folder.
pub fn remove_node_from_tree(nodes: &mut HashMap<usize, Node>, node_id: usize)
    ensures
        nodes_view(final(nodes)@) == remove_node_spec(nodes_view(old(nodes)@), node_id),
{
    if !nodes.contains_key(&node_id) {
        return;
    }
    let ghost before = nodes@;
    let ids = all_ids(nodes);
    let mut i: usize = 0;
    while i < ids.len()
        invariant
            i <= ids@.len(),
            ids@.to_set() == before.dom(),
            ids@.no_duplicates(),
            nodes@.dom() == before.dom(),
            forall|j: int|
                0 <= j < i ==> nodes@[#[trigger] ids@[j]]@ == (NodeView {
                    children: drop_child(before[ids@[j]]@.children, node_id),
                    ..before[ids@[j]]@
                }),
            forall|j: int| i <= j < ids@.len() ==> nodes@[#[trigger] ids@[j]] == before[ids@[j]],
        decreases ids@.len() - i,
    {
        let k = ids[i];
        assert(ids@.to_set().contains(k));
        match nodes.remove(&k) {
            Some(n) => {
                let children = without_id(&n.children, node_id);
                let n2 = Node {
                    id: n.id,
                    path: n.path,
                    name: n.name,
                    method: n.method,
                    children,
                    is_file: n.is_file,
                };
                nodes.insert(k, n2);
            },
            None => {},
        }
        assert forall|j: int| i < j < ids@.len() implies nodes@[#[trigger] ids@[j]] == before[ids@[j]] by {
            assert(ids@[j] != k);
        }
        assert forall|j: int| 0 <= j < i implies nodes@[#[trigger] ids@[j]]@ == (NodeView {
            children: drop_child(before[ids@[j]]@.children, node_id),
            ..before[ids@[j]]@
        }) by {
            assert(ids@[j] != k);
        }
        i += 1;
    }
    let ghost mid = nodes@;
    nodes.remove(&node_id);
    let ghost target = remove_node_spec(nodes_view(before), node_id);
    assert forall|key: usize| #[trigger] nodes_view(nodes@).contains_key(key) implies target.contains_key(key)
        && nodes_view(nodes@)[key] == target[key] by {
        assert(ids@.to_set().contains(key));
        let j = choose|j: int| 0 <= j < ids@.len() && ids@[j] == key;
        assert(mid[ids@[j]]@ == (NodeView {
            children: drop_child(before[ids@[j]]@.children, node_id),
            ..before[ids@[j]]@
        }));
        assert(key != node_id);
        assert(nodes@[key] == mid[key]);
        assert(nodes_view(nodes@)[key] == mid[key]@);
        assert(before.contains_key(key));
        assert(nodes_view(before)[key] == before[key]@);
        assert(nodes_view(before).contains_key(node_id));
        assert(target[key] == (NodeView {
            children: drop_child(nodes_view(before)[key].children, node_id),
            ..nodes_view(before)[key]
        }));
        assert(nodes_view(nodes@)[key] =~= target[key]);
    }
    assert(nodes_view(nodes@) =~= target);
}

/// A copy of a node.
pub fn copy_node(n: &Node) -> (r: Node)
    ensures
        r@ == n@,
{
    Node {
        id: n.id,
        path: n.path.clone(),
        name: n.name.clone(),
        method: n.method.clone(),
        children: n.children.clone(),
        is_file: n.is_file,
    }
}

/// Where a child named `name` goes among `children`, from position `i` on:
/// before the first child whose name sorts after it, else at the end.
pub open spec fn insert_pos_from(m: Map<usize, NodeView>, children: Seq<usize>, name: Seq<char>, i: int) -> int
    decreases children.len() - i,
{
    if i >= children.len() {
        children.len() as int
    } else if m.contains_key(children[i]) && seq_lt(name, m[children[i]].name) {
        i
    } else {
        insert_pos_from(m, children, name, i + 1)
    }
}

/// The table after filing `child` under `parent`, among its siblings by name.
pub open spec fn insert_child_spec(m: Map<usize, NodeView>, parent: usize, child: usize) -> Map<usize, NodeView> {
    if !m.contains_key(child) || !m.contains_key(parent) {
        m
    } else {
        let pos = insert_pos_from(m, m[parent].children, m[child].name, 0);
        m.insert(parent, NodeView { children: m[parent].children.insert(pos, child), ..m[parent] })
    }
}

/// `insert_pos_from` stays within the list.
proof fn lemma_insert_pos(m: Map<usize, NodeView>, children: Seq<usize>, name: Seq<char>, i: int)
    requires
        0 <= i <= children.len(),
    ensures
        i <= insert_pos_from(m, children, name, i) <= children.len(),
    decreases children.len() - i,
{
    if i < children.len() {
        lemma_insert_pos(m, children, name, i + 1);
    }
}

/// Files node `child_id` under `parent_id`, before the first sibling whose
/// name sorts after the child's. A missing node changes nothing.
pub fn insert_child_sorted(nodes: &mut HashMap<usize, Node>, parent_id: usize, child_id: usize)
    ensures
        nodes_view(final(nodes)@) == insert_child_spec(nodes_view(old(nodes)@), parent_id, child_id),
{
    let ghost before = nodes@;
    let ghost mv = nodes_view(before);
    let child_name = match nodes.get(&child_id) {
        Some(c) => c.name.clone(),
        None => return,
    };
    let parent = match nodes.get(&parent_id) {
        Some(p) => copy_node(p),
        None => return,
    };
    let mut pos: usize = 0;
    proof {
        lemma_insert_pos(mv, parent@.children, child_name@, 0);
    }
    while pos < parent.children.len()
        invariant
            pos <= parent.children@.len(),
            mv == nodes_view(before),
            nodes@ == before,
            insert_pos_from(mv, parent.children@, child_name@, pos as int) == insert_pos_from(
                mv,
                parent.children@,
                child_name@,
                0,
            ),
        ensures
            pos <= parent.children@.len(),
            pos == insert_pos_from(mv, parent.children@, child_name@, 0),
        decreases parent.children@.len() - pos,
    {
        let existing = parent.children[pos];
        let after = match nodes.get(&existing) {
            Some(e) => crate::order::str_lt(child_name.as_str(), e.name.as_str()),
            None => false,
        };
        if after {
            assert(mv.contains_key(existing) && seq_lt(child_name@, mv[existing].name));
            break;
        }
        assert(!(mv.contains_key(existing) && seq_lt(child_name@, mv[existing].name)));
        pos += 1;
    }
    let mut p2 = parent;
    let ghost old_children = p2.children@;
    p2.children.insert(pos, child_id);
    nodes.insert(parent_id, p2);
    assert(nodes_view(nodes@) =~= insert_child_spec(mv, parent_id, child_id));
}

/// Whether `v` holds `x`.
fn holds(v: &Vec<usize>, x: usize) -> (r: bool)
    ensures
        r == v@.contains(x),
{
    let mut i: usize = 0;
    while i < v.len()
        invariant
            i <= v@.len(),
            forall|j: int| 0 <= j < i ==> v@[j] != x,
        decreases v@.len() - i,
    {
        if v[i] == x {
            assert(v@[i as int] == x);
            return true;
        }
        i += 1;
    }
    false
}

/// The folder a new item goes into when node `target` is chosen: the node
/// itself when it is a folder, else a folder listing it (any one, should
/// several list it); `None` without a target, for an unknown node, or for a
/// file no folder lists.
pub fn folder_target(nodes: &HashMap<usize, Node>, target: Option<usize>) -> (r: Option<usize>)
    ensures
        match target {
            None => r is None,
            Some(id) => {
                &&& !nodes@.contains_key(id) ==> r is None
                &&& (nodes@.contains_key(id) && !nodes@[id].is_file) ==> r == Some(id)
                &&& (nodes@.contains_key(id) && nodes@[id].is_file) ==> match r {
                    Some(p) => exists|k: usize|
                        #[trigger] nodes@.contains_key(k) && nodes@[k].children@.contains(id)
                            && nodes@[k].id == p,
                    None => forall|k: usize|
                        #[trigger] nodes@.contains_key(k) ==> !nodes@[k].children@.contains(id),
                }
            },
        },
{
    let id = match target {
        None => return None,
        Some(id) => id,
    };
    let is_file = match nodes.get(&id) {
        None => return None,
        Some(n) => n.is_file,
    };
    if !is_file {
        return Some(id);
    }
    let ids = all_ids(nodes);
    let mut i: usize = 0;
    while i < ids.len()
        invariant
            i <= ids@.len(),
            ids@.to_set() == nodes@.dom(),
            target == Some(id),
            nodes@.contains_key(id),
            nodes@[id].is_file,
            forall|j: int|
                0 <= j < i ==> !nodes@[#[trigger] ids@[j]].children@.contains(id),
        decreases ids@.len() - i,
    {
        let k = ids[i];
        assert(ids@.to_set().contains(k));
        match nodes.get(&k) {
            Some(n) => {
                if holds(&n.children, id) {
                    assert(nodes@.contains_key(k) && nodes@[k].children@.contains(id));
                    assert(nodes@[k].id == n.id);
                    return Some(n.id);
                }
            },
            None => {},
        }
        i += 1;
    }
    assert forall|k: usize| #[trigger] nodes@.contains_key(k) implies !nodes@[k].children@.contains(id) by {
        assert(ids@.to_set().contains(k));
        let j = choose|j: int| 0 <= j < ids@.len() && ids@[j] == k;
    }
    None
}

/// The node a context-menu command acts on: the right-clicked node, else
/// the open one.
pub fn target_id(context_target: Option<usize>, active_node: Option<usize>) -> (r: Option<usize>)
    ensures
        r == match context_target {
            Some(c) => Some(c),
            None => active_node,
        },
{
    match context_target {
        Some(c) => Some(c),
        None => active_node,
    }
}

/// The name typed for a new or renamed item, trimmed; `None` when empty.
pub fn entered_name(input: &str) -> (r: Option<String>)
    ensures
        match r {
            Some(n) => n@ == crate::text::trim_seq(input@) && n@.len() > 0,
            None => crate::text::trim_seq(input@).len() == 0,
        },
{
    let cs = crate::text::chars_of(input);
    let t = crate::text::trim(cs.as_slice());
    if t.len() == 0 {
        None
    } else {
        Some(crate::text::string_of(t.as_slice()))
    }
}

/// The name `.json`.
pub open spec fn json_suffix() -> Seq<char> {
    seq!['.', 'j', 's', 'o', 'n']
}

/// A file name as the tree shows it: without a final `.json`.
pub open spec fn display_name_spec(name: Seq<char>) -> Seq<char> {
    if name.len() >= 5 && name.skip(name.len() - 5) == json_suffix() {
        name.take(name.len() - 5)
    } else {
        name
    }
}

/// A file name as the tree shows it.
pub fn display_name(name: &str) -> (r: String)
    ensures
        r@ == display_name_spec(name@),
{
    let cs = crate::text::chars_of(name);
    let n = cs.len();
    if n >= 5 && cs[n - 5] == '.' && cs[n - 4] == 'j' && cs[n - 3] == 's' && cs[n - 2] == 'o' && cs[n - 1] == 'n' {
        assert(cs@.skip(n - 5) =~= json_suffix());
        let t = crate::text::slice_chars(cs.as_slice(), 0, n - 5);
        crate::text::string_of(t.as_slice())
    } else {
        proof {
            if n >= 5 && cs@.skip(n - 5) == json_suffix() {
                assert(cs@.skip(n - 5)[0] == cs@[n - 5]);
                assert(cs@.skip(n - 5)[1] == cs@[n - 4]);
                assert(cs@.skip(n - 5)[2] == cs@[n - 3]);
                assert(cs@.skip(n - 5)[3] == cs@[n - 2]);
                assert(cs@.skip(n - 5)[4] == cs@[n - 1]);
            }
        }
        owned(name)
    }
}

/// What `Path::parent` gives for a path.
pub uninterp spec fn path_parent(p: Seq<char>) -> Option<Seq<char>>;

/// Calls `std::path::Path::parent`: the path without its last component,
/// or `None` for a root or an empty path. Its rules for separators and
/// `.` components are named, not written out.
#[verifier::external_body]
fn parent_dir(p: &str) -> (r: Option<String>)
    ensures
        crate::model::opt_view(r) == path_parent(p@),
{
    std::path::Path::new(p).parent().map(|d| d.to_string_lossy().into_owned())
}

/// What `std::path::Path::strip_prefix` leaves of `path` once the leading
/// components `base` are taken off, or `None` where `base` does not lead it.
pub uninterp spec fn path_strip_prefix(path: Seq<char>, base: Seq<char>) -> Option<Seq<char>>;

/// Calls `std::path::Path::strip_prefix`, which compares whole components.
/// Its rules for separators and `.` components are named, not written out.
#[verifier::external_body]
fn strip_path_prefix(path: &str, base: &str) -> (r: Option<String>)
    ensures
        crate::model::opt_view(r) == path_strip_prefix(path@, base@),
{
    std::path::Path::new(path).strip_prefix(base).ok().map(|p| p.to_string_lossy().into_owned())
}

/// A path as the workspace sees it: relative to `base` where `base` leads
/// it, else the path unchanged.
pub fn relative_path(path: &str, base: &str) -> (r: String)
    ensures
        r@ == match path_strip_prefix(path@, base@) {
            Some(rel) => rel,
            None => path@,
        },
{
    match strip_path_prefix(path, base) {
        Some(rel) => rel,
        None => owned(path),
    }
}

/// The path that "copy path" puts on the clipboard: that of the node the
/// context menu targets, else of the open file; relative to the workspace
/// at `base` when `relative` is set. `None` when there is no such node.
pub fn copied_path(
    nodes: &HashMap<usize, Node>,
    context_target: Option<usize>,
    active_node: Option<usize>,
    base: &str,
    relative: bool,
) -> (r: Option<String>)
    ensures
        ({
            let t = match context_target {
                Some(c) => Some(c),
                None => active_node,
            };
            match t {
                Some(id) if nodes@.contains_key(id) => r matches Some(p) && p@ == if relative {
                    match path_strip_prefix(nodes@[id].path@, base@) {
                        Some(rel) => rel,
                        None => nodes@[id].path@,
                    }
                } else {
                    nodes@[id].path@
                },
                _ => r is None,
            }
        }),
{
    match target_id(context_target, active_node) {
        Some(id) => match nodes.get(&id) {
            Some(n) => if relative {
                Some(relative_path(n.path.as_str(), base))
            } else {
                Some(owned(n.path.as_str()))
            },
            None => None,
        },
        None => None,
    }
}

/// The new path of a renamed item: the old path's parent (empty when it
/// has none), a `/`, the new name.
pub fn renamed_path(old_path: &str, new_name: &str) -> (r: String)
    ensures
        r@ == match path_parent(old_path@) {
            Some(d) => d,
            None => Seq::empty(),
        } + seq!['/'] + new_name@,
{
    let mut out: Vec<char> = match parent_dir(old_path) {
        Some(d) => crate::text::chars_of(d.as_str()),
        None => Vec::new(),
    };
    out.push('/');
    crate::text::push_str(&mut out, new_name);
    crate::text::string_of(out.as_slice())
}

/// The node of a newly created request file: shown without `.json`, a `GET`
/// request, no children.
pub fn new_file_node(id: usize, name: &str, path: String) -> (r: Node)
    ensures
        r@ == (NodeView {
            id,
            path: path@,
            name: name@,
            method: "GET"@,
            children: Seq::empty(),
            is_file: true,
        }),
{
    let r = Node { id, path, name: owned(name), method: owned("GET"), children: Vec::new(), is_file: true };
    assert(r@ =~= (NodeView {
        id,
        path: r.path@,
        name: name@,
        method: "GET"@,
        children: Seq::empty(),
        is_file: true,
    }));
    r
}

/// The node of a newly created folder.
pub fn new_folder_node(id: usize, name: &str, path: String) -> (r: Node)
    ensures
        r@ == (NodeView {
            id,
            path: path@,
            name: name@,
            method: Seq::empty(),
            children: Seq::empty(),
            is_file: false,
        }),
{
    let r = Node { id, path, name: owned(name), method: String::new(), children: Vec::new(), is_file: false };
    assert(r@ =~= (NodeView {
        id,
        path: r.path@,
        name: name@,
        method: Seq::empty(),
        children: Seq::empty(),
        is_file: false,
    }));
    r
}

/// The node of a workspace's root folder, listing the top-level items.
pub fn root_node(id: usize, name: &str, path: &str, children: Vec<usize>) -> (r: Node)
    ensures
        r@ == (NodeView {
            id,
            path: path@,
            name: name@,
            method: Seq::empty(),
            children: children@,
            is_file: false,
        }),
{
    Node { id, path: owned(path), name: owned(name), method: String::new(), children, is_file: false }
}

/// Records a rename of node `id` to `new_name` at `new_path`: the node
/// shows the new name without `.json`. A missing node changes nothing.
pub fn rename_node(nodes: &mut HashMap<usize, Node>, id: usize, new_name: &str, new_path: &str) -> (found: bool)
    ensures
        found == old(nodes)@.contains_key(id),
        found ==> nodes_view(final(nodes)@) == nodes_view(old(nodes)@).insert(
            id,
            NodeView { name: display_name_spec(new_name@), path: new_path@, ..old(nodes)@[id]@ },
        ),
        !found ==> final(nodes)@ == old(nodes)@,
{
    let ghost before = nodes@;
    match nodes.remove(&id) {
        Some(n) => {
            let n2 = Node {
                id: n.id,
                path: owned(new_path),
                name: display_name(new_name),
                method: n.method,
                children: n.children,
                is_file: n.is_file,
            };
            nodes.insert(id, n2);
            assert(nodes_view(nodes@) =~= nodes_view(before).insert(
                id,
                NodeView { name: display_name_spec(new_name@), path: new_path@, ..before[id]@ },
            ));
            true
        },
        None => false,
    }
}

/// After removing a node of the table it is gone, no folder lists it, and
/// every other node keeps its name, path and the rest of its children.
pub proof fn law_remove_node(m: Map<usize, NodeView>, id: usize)
    requires
        m.contains_key(id),
    ensures
        !remove_node_spec(m, id).contains_key(id),
        forall|k: usize|
            #[trigger] remove_node_spec(m, id).contains_key(k) ==> !remove_node_spec(m, id)[k].children.contains(id)
                && m.contains_key(k) && remove_node_spec(m, id)[k].name == m[k].name
                && remove_node_spec(m, id)[k].path == m[k].path,
        forall|k: usize| m.contains_key(k) && k != id ==> #[trigger] remove_node_spec(m, id).contains_key(k),
{
    assert forall|k: usize| #[trigger] remove_node_spec(m, id).contains_key(k) implies !remove_node_spec(
        m,
        id,
    )[k].children.contains(id) by {
        lemma_drop_child_absent(m[k].children, id);
    }
}

/// `drop_child` leaves no entry equal to the dropped id.
proof fn lemma_drop_child_absent(s: Seq<usize>, id: usize)
    ensures
        !drop_child(s, id).contains(id),
    decreases s.len(),
{
    reveal(Seq::filter);
    if s.len() > 0 {
        lemma_drop_child_absent(s.drop_last(), id);
        let d = drop_child(s.drop_last(), id);
        if s.last() != id {
            assert(drop_child(s, id) == d.push(s.last()));
            if d.push(s.last()).contains(id) {
                let i = choose|i: int| 0 <= i < d.len() + 1 && d.push(s.last())[i] == id;
                if i < d.len() {
                    assert(d[i] == id);
                }
            }
        } else {
            assert(drop_child(s, id) == d);
        }
    }
}

/// Where a child goes: every sibling before the position stays before it,
/// and the sibling at the position sorts after it.
proof fn lemma_insert_pos_facts(m: Map<usize, NodeView>, children: Seq<usize>, name: Seq<char>, i: int)
    requires
        0 <= i <= children.len(),
    ensures
        forall|a: int|
            i <= a < insert_pos_from(m, children, name, i) ==> !(m.contains_key(#[trigger] children[a])
                && seq_lt(name, m[children[a]].name)),
        insert_pos_from(m, children, name, i) < children.len() ==> m.contains_key(
            children[insert_pos_from(m, children, name, i)],
        ) && seq_lt(name, m[children[insert_pos_from(m, children, name, i)]].name),
    decreases children.len() - i,
{
    if i < children.len() {
        lemma_insert_pos_facts(m, children, name, i + 1);
    }
}

/// The children of a folder are in name order, and all are in the table.
pub open spec fn children_sorted(m: Map<usize, NodeView>, children: Seq<usize>) -> bool {
    &&& forall|a: int| 0 <= a < children.len() ==> m.contains_key(#[trigger] children[a])
    &&& forall|a: int, b: int|
        0 <= a < b < children.len() ==> !seq_lt(m[children[b]].name, m[children[a]].name)
}

/// Filing a child into a folder whose children are in name order keeps
/// them in name order.
pub proof fn law_insert_child_keeps_order(m: Map<usize, NodeView>, parent: usize, child: usize)
    requires
        m.contains_key(parent),
        m.contains_key(child),
        children_sorted(m, m[parent].children),
    ensures
        children_sorted(insert_child_spec(m, parent, child), insert_child_spec(m, parent, child)[parent].children),
{
    let cs = m[parent].children;
    let name = m[child].name;
    let pos = insert_pos_from(m, cs, name, 0);
    lemma_insert_pos(m, cs, name, 0);
    lemma_insert_pos_facts(m, cs, name, 0);
    let m2 = insert_child_spec(m, parent, child);
    let s = cs.insert(pos, child);
    assert(m2[parent].children == s);
    // names are unchanged by the update
    assert forall|k: usize| m.contains_key(k) implies #[trigger] m2.contains_key(k) && m2[k].name == m[k].name by {}
    assert forall|a: int| 0 <= a < s.len() implies m2.contains_key(#[trigger] s[a]) by {
        if a < pos {
            assert(s[a] == cs[a]);
        } else if a > pos {
            assert(s[a] == cs[a - 1]);
        }
    }
    assert forall|a: int, b: int| 0 <= a < b < s.len() implies !seq_lt(m2[s[b]].name, m2[s[a]].name) by {
        if a < pos && b == pos {
            assert(s[a] == cs[a]);
            assert(!(m.contains_key(cs[a]) && seq_lt(name, m[cs[a]].name)));
        } else if a == pos && b > pos {
            assert(s[b] == cs[b - 1]);
            let e = m[cs[pos]].name;
            assert(seq_lt(name, e));
            crate::order::lemma_seq_lt_asym(name, e);
            if b - 1 > pos {
                assert(!seq_lt(m[cs[b - 1]].name, m[cs[pos]].name));
            }
            if seq_lt(m[cs[b - 1]].name, name) {
                crate::order::lemma_seq_lt_trans(m[cs[b - 1]].name, name, e);
            }
        } else if a < pos && b < pos {
            assert(s[a] == cs[a] && s[b] == cs[b]);
        } else if a < pos && b > pos {
            assert(s[a] == cs[a] && s[b] == cs[b - 1]);
        } else {
            assert(s[a] == cs[a - 1] && s[b] == cs[b - 1]);
        }
    }
}

/// Directories the project tree does not descend into.
pub open spec fn skipped_dir_spec(name: Seq<char>) -> bool {
    name == "target"@ || name == "node_modules"@ || name == ".git"@ || name == "dist"@ || name
        == ".arc"@
}

/// Whether the tree skips a directory of this name.
pub fn skipped_dir(name: &str) -> (r: bool)
    ensures
        r == skipped_dir_spec(name@),
{
    crate::text::str_eq(name, "target") || crate::text::str_eq(name, "node_modules")
        || crate::text::str_eq(name, ".git") || crate::text::str_eq(name, "dist")
        || crate::text::str_eq(name, ".arc")
}

/// The tree read from a workspace directory: the top-level items and all nodes.
#[derive(Debug)]
pub struct DirTree {
    pub root_ids: Vec<usize>,
    pub nodes: HashMap<usize, Node>,
}

/// One item met while walking a workspace directory.
#[derive(Clone, Debug)]
pub struct WalkEntry {
    pub id: usize,
    pub path: String,
    /// The path of the directory holding it, when it has one.
    pub parent: Option<String>,
    pub name: String,
    pub is_file: bool,
    /// The method of a request file, as read from it.
    pub method: String,
}

/// Index of the first known path equal to `p`, or -1.
pub open spec fn known_index(known: Seq<(Seq<char>, usize)>, p: Seq<char>) -> int
    decreases known.len(),
{
    if known.len() == 0 {
        -1
    } else if known[0].0 == p {
        0
    } else {
        let r = known_index(known.drop_first(), p);
        if r < 0 {
            -1
        } else {
            r + 1
        }
    }
}

/// What `known_index` gives.
proof fn lemma_known_index(known: Seq<(Seq<char>, usize)>, p: Seq<char>)
    ensures
        -1 <= known_index(known, p) < known.len(),
        known_index(known, p) >= 0 ==> known[known_index(known, p)].0 == p,
        forall|j: int| 0 <= j < known_index(known, p) ==> known[j].0 != p,
        known_index(known, p) < 0 ==> forall|j: int| 0 <= j < known.len() ==> known[j].0 != p,
    decreases known.len(),
{
    if known.len() > 0 && known[0].0 != p {
        lemma_known_index(known.drop_first(), p);
        assert forall|j: int| 0 <= j < known_index(known, p) implies known[j].0 != p by {
            if j > 0 {
                assert(known[j] == known.drop_first()[j - 1]);
            }
        }
        if known_index(known, p) < 0 {
            assert forall|j: int| 0 <= j < known.len() implies known[j].0 != p by {
                if j > 0 {
                    assert(known[j] == known.drop_first()[j - 1]);
                }
            }
        }
    }
}

/// The abstract content of the known paths.
pub open spec fn known_view(v: Seq<(String, usize)>) -> Seq<(Seq<char>, usize)> {
    v.map_values(|k: (String, usize)| (k.0@, k.1))
}

/// The node of a walked item: shown without `.json`, with its method when
/// it is a file, no children yet.
pub open spec fn walked_node(entry: WalkEntry) -> NodeView {
    NodeView {
        id: entry.id,
        path: entry.path@,
        name: display_name_spec(entry.name@),
        method: if entry.is_file {
            entry.method@
        } else {
            Seq::empty()
        },
        children: Seq::empty(),
        is_file: entry.is_file,
    }
}

/// The table with `child` appended to the children of `parent`, when the
/// table has that node.
pub open spec fn with_child(m: Map<usize, NodeView>, parent: usize, child: usize) -> Map<usize, NodeView> {
    if m.contains_key(parent) {
        m.insert(parent, NodeView { children: m[parent].children.push(child), ..m[parent] })
    } else {
        m
    }
}

/// Adds a walked item to the tree. It joins the children of the first
/// known directory with its parent's path, or the top level when no known
/// directory has that path; an item without a parent joins nothing.
pub fn add_walked(tree: &mut DirTree, known: &mut Vec<(String, usize)>, entry: WalkEntry)
    ensures
        known_view(final(known)@) == known_view(old(known)@).push((entry.path@, entry.id)),
        ({
            let kv = known_view(old(known)@);
            let m = nodes_view(old(tree).nodes@).insert(entry.id, walked_node(entry));
            match entry.parent {
                None => final(tree).root_ids@ == old(tree).root_ids@ && nodes_view(final(tree).nodes@) == m,
                Some(p) => if known_index(kv, p@) < 0 {
                    final(tree).root_ids@ == old(tree).root_ids@.push(entry.id) && nodes_view(final(tree).nodes@) == m
                } else {
                    final(tree).root_ids@ == old(tree).root_ids@ && nodes_view(final(tree).nodes@) == with_child(
                        m,
                        kv[known_index(kv, p@)].1,
                        entry.id,
                    )
                },
            }
        }),
{
    let ghost kv = known_view(known@);
    let ghost wn = walked_node(entry);
    let node = Node {
        id: entry.id,
        path: entry.path.clone(),
        name: display_name(entry.name.as_str()),
        method: if entry.is_file { entry.method.clone() } else { String::new() },
        children: Vec::new(),
        is_file: entry.is_file,
    };
    let ghost before = nodes_view(tree.nodes@);
    tree.nodes.insert(entry.id, node);
    assert(nodes_view(tree.nodes@) =~= before.insert(entry.id, wn));
    let ghost m = nodes_view(tree.nodes@);
    match &entry.parent {
        None => {},
        Some(p) => {
            let mut i: usize = 0;
            let mut found: Option<usize> = None;
            while i < known.len()
                invariant_except_break
                    found is None,
                invariant
                    i <= known@.len(),
                    kv == known_view(known@),
                    forall|j: int| 0 <= j < i ==> kv[j].0 != p@,
                ensures
                    match found {
                        Some(pid) => i < known@.len() && kv[i as int].0 == p@ && pid == kv[i as int].1
                            && forall|j: int| 0 <= j < i ==> kv[j].0 != p@,
                        None => forall|j: int| 0 <= j < known@.len() ==> kv[j].0 != p@,
                    },
                decreases known@.len() - i,
            {
                if crate::text::str_eq(known[i].0.as_str(), p.as_str()) {
                    found = Some(known[i].1);
                    break;
                }
                i += 1;
            }
            proof {
                lemma_known_index(kv, p@);
            }
            match found {
                Some(pid) => {
                    assert(known_index(kv, p@) == i as int);
                    match tree.nodes.remove(&pid) {
                        Some(parent) => {
                            let mut parent = parent;
                            let ghost pv = parent@;
                            parent.children.push(entry.id);
                            tree.nodes.insert(pid, parent);
                            assert(nodes_view(tree.nodes@) =~= with_child(m, pid, entry.id));
                        },
                        None => {
                            assert(nodes_view(tree.nodes@) =~= with_child(m, pid, entry.id));
                        },
                    }
                },
                None => {
                    assert(known_index(kv, p@) < 0);
                    tree.root_ids.push(entry.id);
                },
            }
        },
    }
    let ghost before_push = known@;
    known.push((entry.path.clone(), entry.id));
    assert(known_view(known@) =~= known_view(before_push).push((entry.path@, entry.id)));
}


/// An entry of the file tree's context menu.
#[derive(Clone, Copy, Debug, PartialEq, Eq, Structural)]
pub enum MenuEntry {
    CreateFile,
    CreateFolder,
    StressTest,
    CopyAsCode,
    CopyPath,
    CopyRelativePath,
    Rename,
    Trash,
    Delete,
    Separator,
}

/// The context menu of a node: creation entries for a folder, request
/// entries for a file, the two copy-path entries, and (except on the
/// workspace root) rename, trash and delete.
pub open spec fn menu_spec(is_file: bool, is_root: bool) -> Seq<MenuEntry> {
    (if is_file {
        seq![MenuEntry::StressTest, MenuEntry::CopyAsCode, MenuEntry::Separator]
    } else {
        seq![MenuEntry::CreateFile, MenuEntry::CreateFolder, MenuEntry::Separator]
    }) + seq![MenuEntry::CopyPath, MenuEntry::CopyRelativePath, MenuEntry::Separator] + (if is_root {
        Seq::empty()
    } else {
        seq![MenuEntry::Rename, MenuEntry::Trash, MenuEntry::Delete]
    })
}

/// The context menu opened on node `node_id`; a node missing from the
/// table counts as a file, and `root` is the workspace root's id.
pub fn context_menu_entries(nodes: &HashMap<usize, Node>, node_id: usize, root: Option<usize>) -> (r: Vec<MenuEntry>)
    ensures
        r@ == menu_spec(
            if nodes@.contains_key(node_id) {
                nodes@[node_id].is_file
            } else {
                true
            },
            root == Some(node_id),
        ),
{
    let is_file = match nodes.get(&node_id) {
        Some(n) => n.is_file,
        None => true,
    };
    let is_root = match root {
        Some(id) => id == node_id,
        None => false,
    };
    let mut r: Vec<MenuEntry> = if is_file {
        vec![MenuEntry::StressTest, MenuEntry::CopyAsCode, MenuEntry::Separator]
    } else {
        vec![MenuEntry::CreateFile, MenuEntry::CreateFolder, MenuEntry::Separator]
    };
    r.push(MenuEntry::CopyPath);
    r.push(MenuEntry::CopyRelativePath);
    r.push(MenuEntry::Separator);
    if !is_root {
        r.push(MenuEntry::Rename);
        r.push(MenuEntry::Trash);
        r.push(MenuEntry::Delete);
    }
    assert(r@ =~= menu_spec(is_file, is_root));
    r
}

} // verus!
