//! The layer tree as a forest: how a node is found, where it lives, and
//! what it means to replace one of its child lists.
//!
//! A *list path* names a child list: the empty path is the root list, and
//! `[k] + p` is the list `p` inside the children of the group at index `k`.
//! A node is addressed by a list path and an index in that list.

use crate::ids::LayerId;
use crate::model::{GroupLayer, LayerNode};
use vstd::prelude::*;

verus! {

/// The child list at `path`.
pub open spec fn list_at(nodes: Seq<LayerNode>, path: Seq<int>) -> Seq<LayerNode>
    decreases path.len(),
{
    if path.len() == 0 {
        nodes
    } else {
        list_at(nodes[path[0]].kids(), path.drop_first())
    }
}

/// Whether every step of `path` goes through a group.
pub open spec fn valid_path(nodes: Seq<LayerNode>, path: Seq<int>) -> bool
    decreases path.len(),
{
    path.len() == 0 || (0 <= path[0] < nodes.len() && nodes[path[0]] is Group && valid_path(
        nodes[path[0]].kids(),
        path.drop_first(),
    ))
}

/// The node at index `index` of the list at `path`.
pub open spec fn node_at(nodes: Seq<LayerNode>, path: Seq<int>, index: int) -> LayerNode {
    list_at(nodes, path)[index]
}

/// Whether `(path, index)` addresses a node of the forest.
pub open spec fn valid_loc(nodes: Seq<LayerNode>, path: Seq<int>, index: int) -> bool {
    valid_path(nodes, path) && 0 <= index < list_at(nodes, path).len()
}

/// Position of the first node with identifier `id` in one list.
pub open spec fn index_of(nodes: Seq<LayerNode>, id: LayerId) -> Option<int>
    decreases nodes.len(),
{
    if nodes.len() == 0 {
        None
    } else if nodes[0].node_id() == id {
        Some(0)
    } else {
        match index_of(nodes.drop_first(), id) {
            Some(i) => Some(i + 1),
            None => None,
        }
    }
}

/// Depth-first, pre-order search from index `k` of a list: the first node
/// with identifier `id`, as a list path and an index.
pub open spec fn find_loc_from(nodes: Seq<LayerNode>, id: LayerId, k: int) -> Option<
    (Seq<int>, int),
>
    decreases nodes, nodes.len() - k,
{
    if k < 0 || k >= nodes.len() {
        None
    } else if nodes[k].node_id() == id {
        Some((Seq::empty(), k))
    } else {
        let inner = match nodes[k] {
            LayerNode::Group(g) => find_loc_from(g.children@, id, 0),
            _ => None,
        };
        match inner {
            Some((p, i)) => Some((seq![k] + p, i)),
            None => find_loc_from(nodes, id, k + 1),
        }
    }
}

/// Where the depth-first, pre-order search meets `id` first.
pub open spec fn find_loc(nodes: Seq<LayerNode>, id: LayerId) -> Option<(Seq<int>, int)> {
    find_loc_from(nodes, id, 0)
}

/// The first node with identifier `id` in depth-first, pre-order.
pub open spec fn find_node(nodes: Seq<LayerNode>, id: LayerId) -> Option<LayerNode> {
    match find_loc(nodes, id) {
        Some((p, i)) => Some(node_at(nodes, p, i)),
        None => None,
    }
}

/// Groups of a list, from index `k` on, searched for the list that holds
/// `id`: each group's own children first, then its descendants.
pub open spec fn locate_in_groups(nodes: Seq<LayerNode>, id: LayerId, k: int) -> Option<
    (Seq<int>, int),
>
    decreases nodes, nodes.len() - k,
{
    if k < 0 || k >= nodes.len() {
        None
    } else {
        let inner = match nodes[k] {
            LayerNode::Group(g) => match index_of(g.children@, id) {
                Some(i) => Some((Seq::<int>::empty(), i)),
                None => locate_in_groups(g.children@, id, 0),
            },
            _ => None,
        };
        match inner {
            Some((p, i)) => Some((seq![k] + p, i)),
            None => locate_in_groups(nodes, id, k + 1),
        }
    }
}

/// The list that owns `id` and its index there: the list itself when it
/// holds `id` (first position), else the first group, in order, that
/// owns it somewhere below.
pub open spec fn locate(nodes: Seq<LayerNode>, id: LayerId) -> Option<(Seq<int>, int)> {
    match index_of(nodes, id) {
        Some(i) => Some((Seq::empty(), i)),
        None => locate_in_groups(nodes, id, 0),
    }
}

/// Whether some node of the forest, from index `k` of the top list on,
/// has identifier `id`.
pub open spec fn occurs_from(nodes: Seq<LayerNode>, id: LayerId, k: int) -> bool
    decreases nodes, nodes.len() - k,
{
    if k < 0 || k >= nodes.len() {
        false
    } else {
        ||| nodes[k].node_id() == id
        ||| match nodes[k] {
            LayerNode::Group(g) => occurs_from(g.children@, id, 0),
            _ => false,
        }
        ||| occurs_from(nodes, id, k + 1)
    }
}

/// Whether some group of the top list, from index `k` on, has a
/// descendant with identifier `id`.
pub open spec fn occurs_below_from(nodes: Seq<LayerNode>, id: LayerId, k: int) -> bool
    decreases nodes.len() - k,
{
    if k < 0 || k >= nodes.len() {
        false
    } else {
        ||| match nodes[k] {
            LayerNode::Group(g) => occurs_from(g.children@, id, 0),
            _ => false,
        }
        ||| occurs_below_from(nodes, id, k + 1)
    }
}

/// Whether some node of the forest has identifier `id`.
pub open spec fn contains_id(nodes: Seq<LayerNode>, id: LayerId) -> bool {
    occurs_from(nodes, id, 0)
}

/// A list path of the executable code, as a path of the specifications.
pub open spec fn ipath(p: Seq<usize>) -> Seq<int> {
    p.map_values(|x: usize| x as int)
}

/// `new` is `old` with the child list at `path` replaced by `list`; every
/// group on the way keeps all its other fields.
pub open spec fn replaced(
    old: Seq<LayerNode>,
    path: Seq<int>,
    list: Seq<LayerNode>,
    new: Seq<LayerNode>,
) -> bool
    decreases path.len(),
{
    if path.len() == 0 {
        new == list
    } else {
        let k = path[0];
        &&& 0 <= k < old.len()
        &&& new.len() == old.len()
        &&& forall|j: int| 0 <= j < old.len() && j != k ==> new[j] == old[j]
        &&& match (old[k], new[k]) {
            (LayerNode::Group(go), LayerNode::Group(gn)) => {
                &&& gn == GroupLayer { children: gn.children, ..go }
                &&& replaced(go.children@, path.drop_first(), list, gn.children@)
            },
            _ => false,
        }
    }
}

// ---------------------------------------------------------------------------
// Lemmas
// ---------------------------------------------------------------------------

/// `index_of` is the first position of `id` in the list.
pub proof fn lemma_index_of(nodes: Seq<LayerNode>, id: LayerId)
    ensures
        match index_of(nodes, id) {
            Some(i) => 0 <= i < nodes.len() && nodes[i].node_id() == id && forall|j: int|
                0 <= j < i ==> (#[trigger] nodes[j]).node_id() != id,
            None => forall|j: int| 0 <= j < nodes.len() ==> (#[trigger] nodes[j]).node_id() != id,
        },
    decreases nodes.len(),
{
    if nodes.len() > 0 {
        lemma_index_of(nodes.drop_first(), id);
        assert forall|j: int| 1 <= j < nodes.len() implies #[trigger] nodes[j] == nodes.drop_first()[j
            - 1] by {}
    }
}

/// A node of a list path, one step down.
pub proof fn lemma_list_at_cons(nodes: Seq<LayerNode>, k: int, p: Seq<int>)
    ensures
        list_at(nodes, seq![k] + p) == list_at(nodes[k].kids(), p),
        valid_path(nodes, seq![k] + p) == (0 <= k < nodes.len() && nodes[k] is Group
            && valid_path(nodes[k].kids(), p)),
{
    assert((seq![k] + p).drop_first() =~= p);
}

/// What the search from index `k` finds is a node with identifier `id`.
pub proof fn lemma_find_loc_from(nodes: Seq<LayerNode>, id: LayerId, k: int)
    ensures
        match find_loc_from(nodes, id, k) {
            Some((p, i)) => valid_loc(nodes, p, i) && node_at(nodes, p, i).node_id() == id,
            None => true,
        },
    decreases nodes, nodes.len() - k,
{
    if 0 <= k < nodes.len() && nodes[k].node_id() != id {
        match nodes[k] {
            LayerNode::Group(g) => {
                lemma_find_loc_from(g.children@, id, 0);
                match find_loc_from(g.children@, id, 0) {
                    Some((p, i)) => {
                        lemma_list_at_cons(nodes, k, p);
                        assert(nodes[k].kids() == g.children@);
                        assert(find_loc_from(nodes, id, k) == Some((seq![k] + p, i)));
                    },
                    None => {
                        lemma_find_loc_from(nodes, id, k + 1);
                    },
                }
            },
            _ => {
                lemma_find_loc_from(nodes, id, k + 1);
            },
        }
    }
}

/// What `locate_in_groups` finds is a node with identifier `id`.
pub proof fn lemma_locate_in_groups(nodes: Seq<LayerNode>, id: LayerId, k: int)
    ensures
        match locate_in_groups(nodes, id, k) {
            Some((p, i)) => valid_loc(nodes, p, i) && node_at(nodes, p, i).node_id() == id,
            None => true,
        },
    decreases nodes, nodes.len() - k,
{
    if 0 <= k < nodes.len() {
        match nodes[k] {
            LayerNode::Group(g) => {
                lemma_index_of(g.children@, id);
                lemma_locate_in_groups(g.children@, id, 0);
                let inner = match index_of(g.children@, id) {
                    Some(i) => Some((Seq::<int>::empty(), i)),
                    None => locate_in_groups(g.children@, id, 0),
                };
                match inner {
                    Some((p, i)) => {
                        lemma_list_at_cons(nodes, k, p);
                        assert(nodes[k].kids() == g.children@);
                        assert(locate_in_groups(nodes, id, k) == Some((seq![k] + p, i)));
                    },
                    None => {
                        lemma_locate_in_groups(nodes, id, k + 1);
                    },
                }
            },
            _ => {
                lemma_locate_in_groups(nodes, id, k + 1);
            },
        }
    }
}

/// What `locate` finds is a node with identifier `id`.
pub proof fn lemma_locate(nodes: Seq<LayerNode>, id: LayerId)
    ensures
        match locate(nodes, id) {
            Some((p, i)) => valid_loc(nodes, p, i) && node_at(nodes, p, i).node_id() == id,
            None => true,
        },
{
    lemma_index_of(nodes, id);
    lemma_locate_in_groups(nodes, id, 0);
}

/// A replacement leaves a valid path whose list is the new one.
pub proof fn lemma_replaced_list(
    old: Seq<LayerNode>,
    path: Seq<int>,
    list: Seq<LayerNode>,
    new: Seq<LayerNode>,
)
    requires
        replaced(old, path, list, new),
    ensures
        valid_path(old, path),
        valid_path(new, path),
        list_at(new, path) == list,
    decreases path.len(),
{
    if path.len() > 0 {
        let k = path[0];
        match (old[k], new[k]) {
            (LayerNode::Group(go), LayerNode::Group(gn)) => {
                lemma_replaced_list(go.children@, path.drop_first(), list, gn.children@);
            },
            _ => {},
        }
    }
}

/// Replacing a list by itself changes nothing.
pub proof fn lemma_replaced_same(nodes: Seq<LayerNode>, path: Seq<int>)
    requires
        valid_path(nodes, path),
    ensures
        replaced(nodes, path, list_at(nodes, path), nodes),
    decreases path.len(),
{
    if path.len() > 0 {
        let k = path[0];
        match nodes[k] {
            LayerNode::Group(g) => {
                lemma_replaced_same(g.children@, path.drop_first());
            },
            _ => {},
        }
    }
}

/// Two replacements at the same path make one.
pub proof fn lemma_replaced_twice(
    a: Seq<LayerNode>,
    path: Seq<int>,
    x: Seq<LayerNode>,
    b: Seq<LayerNode>,
    y: Seq<LayerNode>,
    c: Seq<LayerNode>,
)
    requires
        replaced(a, path, x, b),
        replaced(b, path, y, c),
    ensures
        replaced(a, path, y, c),
    decreases path.len(),
{
    if path.len() > 0 {
        let k = path[0];
        match (a[k], b[k], c[k]) {
            (LayerNode::Group(ga), LayerNode::Group(gb), LayerNode::Group(gc)) => {
                lemma_replaced_twice(
                    ga.children@,
                    path.drop_first(),
                    x,
                    gb.children@,
                    y,
                    gc.children@,
                );
            },
            _ => {},
        }
    }
}

/// The children of a group addressed by `(path, i)` are the list at
/// `path + [i]`.
pub proof fn lemma_list_at_snoc(nodes: Seq<LayerNode>, path: Seq<int>, i: int)
    requires
        valid_loc(nodes, path, i),
        node_at(nodes, path, i) is Group,
    ensures
        valid_path(nodes, path.push(i)),
        list_at(nodes, path.push(i)) == node_at(nodes, path, i).kids(),
    decreases path.len(),
{
    let q = path.push(i);
    if path.len() == 0 {
        assert(q.drop_first() =~= Seq::<int>::empty());
        assert(q[0] == i);
        assert(list_at(nodes, q) == list_at(nodes[i].kids(), q.drop_first()));
        assert(list_at(nodes, path) == nodes);
        assert(valid_path(nodes[i].kids(), q.drop_first()));
        assert(valid_path(nodes, q));
    } else {
        let k = path[0];
        lemma_list_at_snoc(nodes[k].kids(), path.drop_first(), i);
        assert(q.drop_first() =~= path.drop_first().push(i));
        assert(q[0] == k);
        assert(list_at(nodes, q) == list_at(nodes[k].kids(), q.drop_first()));
        assert(list_at(nodes, path) == list_at(nodes[k].kids(), path.drop_first()));
        assert(valid_path(nodes, q));
    }
}

/// The group whose children form the list at a non-empty `path`.
pub proof fn lemma_list_at_parent(nodes: Seq<LayerNode>, path: Seq<int>)
    requires
        valid_path(nodes, path),
        path.len() > 0,
    ensures
        valid_loc(nodes, path.drop_last(), path.last()),
        node_at(nodes, path.drop_last(), path.last()) is Group,
        list_at(nodes, path) == node_at(nodes, path.drop_last(), path.last()).kids(),
    decreases path.len(),
{
    let k = path[0];
    if path.len() == 1 {
        assert(path.drop_last() =~= Seq::<int>::empty());
        assert(path.drop_first() =~= Seq::<int>::empty());
        assert(list_at(nodes, path) == list_at(nodes[k].kids(), path.drop_first()));
        assert(list_at(nodes, path.drop_last()) == nodes);
    } else {
        lemma_list_at_parent(nodes[k].kids(), path.drop_first());
        assert(path.drop_first().drop_last() =~= path.drop_last().drop_first());
        assert(path.drop_last()[0] == k);
        assert(list_at(nodes, path) == list_at(nodes[k].kids(), path.drop_first()));
        assert(list_at(nodes, path.drop_last()) == list_at(
            nodes[k].kids(),
            path.drop_last().drop_first(),
        ));
    }
}

/// The path of a search result one step down.
pub proof fn lemma_ipath_skip(p: Seq<usize>, depth: int)
    requires
        0 <= depth < p.len(),
    ensures
        ipath(p).skip(depth).len() > 0,
        ipath(p).skip(depth)[0] == p[depth] as int,
        ipath(p).skip(depth).drop_first() == ipath(p).skip(depth + 1),
{
    assert(ipath(p).skip(depth).drop_first() =~= ipath(p).skip(depth + 1));
}

/// The depth-first search finds `id` exactly when it occurs.
pub proof fn lemma_find_loc_occurs(nodes: Seq<LayerNode>, id: LayerId, k: int)
    ensures
        (find_loc_from(nodes, id, k) is Some) == occurs_from(nodes, id, k),
    decreases nodes, nodes.len() - k,
{
    if 0 <= k < nodes.len() {
        match nodes[k] {
            LayerNode::Group(g) => {
                lemma_find_loc_occurs(g.children@, id, 0);
            },
            _ => {},
        }
        lemma_find_loc_occurs(nodes, id, k + 1);
    }
}

/// Occurrence from `k`: in the top list from `k` on, or below one of its
/// groups from `k` on.
pub proof fn lemma_occurs_split(nodes: Seq<LayerNode>, id: LayerId, k: int)
    requires
        0 <= k,
    ensures
        occurs_from(nodes, id, k) == ((exists|j: int|
            k <= j < nodes.len() && (#[trigger] nodes[j]).node_id() == id) || occurs_below_from(
            nodes,
            id,
            k,
        )),
    decreases nodes.len() - k,
{
    if k < nodes.len() {
        lemma_occurs_split(nodes, id, k + 1);
        if exists|j: int| k + 1 <= j < nodes.len() && (#[trigger] nodes[j]).node_id() == id {
            let j = choose|j: int| k + 1 <= j < nodes.len() && (#[trigger] nodes[j]).node_id() == id;
            assert(k <= j < nodes.len() && nodes[j].node_id() == id);
        }
        if exists|j: int| k <= j < nodes.len() && (#[trigger] nodes[j]).node_id() == id {
            let j = choose|j: int| k <= j < nodes.len() && (#[trigger] nodes[j]).node_id() == id;
            if j > k {
                assert(k + 1 <= j < nodes.len() && nodes[j].node_id() == id);
            }
        }
    }
}

/// Groups searched by `locate_in_groups` find `id` exactly when it occurs
/// below one of them.
pub proof fn lemma_locate_groups_occurs(nodes: Seq<LayerNode>, id: LayerId, k: int)
    requires
        0 <= k,
    ensures
        (locate_in_groups(nodes, id, k) is Some) == occurs_below_from(nodes, id, k),
    decreases nodes, nodes.len() - k,
{
    if k < nodes.len() {
        match nodes[k] {
            LayerNode::Group(g) => {
                lemma_locate_groups_occurs(g.children@, id, 0);
                lemma_locate_occurs_top(g.children@, id);
            },
            _ => {},
        }
        lemma_locate_groups_occurs(nodes, id, k + 1);
    }
}

/// `locate` finds `id` exactly when it occurs.
pub proof fn lemma_locate_occurs(nodes: Seq<LayerNode>, id: LayerId)
    ensures
        (locate(nodes, id) is Some) == occurs_from(nodes, id, 0),
{
    lemma_locate_groups_occurs(nodes, id, 0);
    lemma_locate_occurs_top(nodes, id);
}

/// `locate` on the top list, given the statement for its groups.
proof fn lemma_locate_occurs_top(nodes: Seq<LayerNode>, id: LayerId)
    ensures
        (locate_in_groups(nodes, id, 0) is Some) == occurs_below_from(nodes, id, 0) ==> (locate(
            nodes,
            id,
        ) is Some) == occurs_from(nodes, id, 0),
{
    lemma_index_of(nodes, id);
    lemma_occurs_split(nodes, id, 0);
    match index_of(nodes, id) {
        Some(i) => {
            assert(0 <= i < nodes.len() && nodes[i].node_id() == id);
        },
        None => {},
    }
}

/// The depth-first search and `locate` succeed on the same identifiers.
pub proof fn lemma_find_iff_locate(nodes: Seq<LayerNode>, id: LayerId)
    ensures
        (find_loc(nodes, id) is Some) == contains_id(nodes, id),
        (locate(nodes, id) is Some) == contains_id(nodes, id),
{
    lemma_find_loc_occurs(nodes, id, 0);
    lemma_locate_occurs(nodes, id);
}

// ---------------------------------------------------------------------------
// Searches
// ---------------------------------------------------------------------------

/// Position of the first node with identifier `id` in one list.
pub fn position_of(nodes: &Vec<LayerNode>, id: LayerId) -> (r: Option<usize>)
    ensures
        match r {
            Some(i) => index_of(nodes@, id) == Some(i as int),
            None => index_of(nodes@, id) is None,
        },
{
    proof {
        lemma_index_of(nodes@, id);
    }
    let mut i: usize = 0;
    while i < nodes.len()
        invariant
            i <= nodes@.len(),
            forall|j: int| 0 <= j < i ==> (#[trigger] nodes@[j]).node_id() != id,
            match index_of(nodes@, id) {
                Some(k) => 0 <= k < nodes@.len() && nodes@[k].node_id() == id && forall|j: int|
                    0 <= j < k ==> (#[trigger] nodes@[j]).node_id() != id,
                None => forall|j: int|
                    0 <= j < nodes@.len() ==> (#[trigger] nodes@[j]).node_id() != id,
            },
        decreases nodes@.len() - i,
    {
        if nodes[i].id() == id {
            proof {
                let k = index_of(nodes@, id);
                if k is Some {
                    let kk = k->0;
                    if kk < i {
                        assert(nodes@[kk].node_id() != id);
                    } else if kk > i {
                        assert(nodes@[i as int].node_id() != id);
                    }
                }
            }
            return Some(i);
        }
        i += 1;
    }
    None
}

/// Depth-first, pre-order search for `id`: list path and index of the
/// first node met.
pub fn find_loc_in(nodes: &Vec<LayerNode>, id: LayerId) -> (r: Option<(Vec<usize>, usize)>)
    ensures
        match r {
            Some((p, i)) => find_loc(nodes@, id) == Some((ipath(p@), i as int)),
            None => find_loc(nodes@, id) is None,
        },
    decreases nodes@,
{
    let mut k: usize = 0;
    while k < nodes.len()
        invariant
            k <= nodes@.len(),
            find_loc(nodes@, id) == find_loc_from(nodes@, id, k as int),
        decreases nodes@.len() - k,
    {
        let node = &nodes[k];
        if node.id() == id {
            let path: Vec<usize> = Vec::new();
            assert(ipath(path@) =~= Seq::<int>::empty());
            return Some((path, k));
        }
        match node {
            LayerNode::Group(g) => {
                assert(decreases_to!(nodes@ => g.children@)) by {
                    assert(decreases_to!(nodes@ => nodes@[k as int]));
                }
                match find_loc_in(&g.children, id) {
                    Some((p, i)) => {
                        let mut path = p;
                        path.insert(0, k);
                        assert(ipath(path@) =~= seq![k as int] + ipath(p@));
                        return Some((path, i));
                    },
                    None => {},
                }
            },
            _ => {},
        }
        k += 1;
    }
    None
}

/// Groups of `nodes`, from index 0 on, searched for the list that owns `id`.
fn locate_in_groups_exec(nodes: &Vec<LayerNode>, id: LayerId) -> (r: Option<(Vec<usize>, usize)>)
    ensures
        match r {
            Some((p, i)) => locate_in_groups(nodes@, id, 0) == Some((ipath(p@), i as int)),
            None => locate_in_groups(nodes@, id, 0) is None,
        },
    decreases nodes@,
{
    let mut k: usize = 0;
    while k < nodes.len()
        invariant
            k <= nodes@.len(),
            locate_in_groups(nodes@, id, 0) == locate_in_groups(nodes@, id, k as int),
        decreases nodes@.len() - k,
    {
        match &nodes[k] {
            LayerNode::Group(g) => {
                assert(decreases_to!(nodes@ => g.children@)) by {
                    assert(decreases_to!(nodes@ => nodes@[k as int]));
                }
                let inner = match position_of(&g.children, id) {
                    Some(i) => {
                        let path: Vec<usize> = Vec::new();
                        assert(ipath(path@) =~= Seq::<int>::empty());
                        Some((path, i))
                    },
                    None => locate_in_groups_exec(&g.children, id),
                };
                match inner {
                    Some((p, i)) => {
                        let mut path = p;
                        path.insert(0, k);
                        assert(ipath(path@) =~= seq![k as int] + ipath(p@));
                        return Some((path, i));
                    },
                    None => {},
                }
            },
            _ => {},
        }
        k += 1;
    }
    None
}

/// The list that owns `id` and the index of `id` in it.
pub fn locate_in(nodes: &Vec<LayerNode>, id: LayerId) -> (r: Option<(Vec<usize>, usize)>)
    ensures
        match r {
            Some((p, i)) => locate(nodes@, id) == Some((ipath(p@), i as int)),
            None => locate(nodes@, id) is None,
        },
{
    match position_of(nodes, id) {
        Some(i) => {
            let path: Vec<usize> = Vec::new();
            assert(ipath(path@) =~= Seq::<int>::empty());
            Some((path, i))
        },
        None => locate_in_groups_exec(nodes, id),
    }
}

/// The child list at `path` (from step `depth` on).
pub fn list_ref_at<'a>(nodes: &'a Vec<LayerNode>, path: &Vec<usize>, depth: usize) -> (list: &'a Vec<
    LayerNode,
>)
    requires
        depth <= path@.len(),
        valid_path(nodes@, ipath(path@).skip(depth as int)),
    ensures
        list@ == list_at(nodes@, ipath(path@).skip(depth as int)),
    decreases path@.len() - depth,
{
    if depth == path.len() {
        assert(ipath(path@).skip(depth as int) =~= Seq::<int>::empty());
        return nodes;
    }
    proof {
        lemma_ipath_skip(path@, depth as int);
    }
    match &nodes[path[depth]] {
        LayerNode::Group(g) => list_ref_at(&g.children, path, depth + 1),
        _ => {
            assert(false);
            nodes
        },
    }
}

/// The node at `(path, i)` (from step `depth` of the path on), to edit in
/// place: what is written through it replaces that node.
pub fn node_mut_at<'a>(nodes: &'a mut Vec<LayerNode>, path: &Vec<usize>, depth: usize, i: usize) -> (r:
    &'a mut LayerNode)
    requires
        depth <= path@.len(),
        valid_loc(old(nodes)@, ipath(path@).skip(depth as int), i as int),
    ensures
        *r == node_at(old(nodes)@, ipath(path@).skip(depth as int), i as int),
        replaced(
            old(nodes)@,
            ipath(path@).skip(depth as int),
            list_at(old(nodes)@, ipath(path@).skip(depth as int)).update(i as int, *final(r)),
            final(nodes)@,
        ),
    decreases path@.len() - depth,
{
    if depth == path.len() {
        assert(ipath(path@).skip(depth as int) =~= Seq::<int>::empty());
        return &mut nodes[i];
    }
    proof {
        lemma_ipath_skip(path@, depth as int);
    }
    let k = path[depth];
    match &mut nodes[k] {
        LayerNode::Group(g) => node_mut_at(&mut g.children, path, depth + 1, i),
        other => {
            assert(false);
            other
        },
    }
}

/// The first node with identifier `id` in depth-first, pre-order.
pub fn find_in<'a>(nodes: &'a Vec<LayerNode>, id: LayerId) -> (r: Option<&'a LayerNode>)
    ensures
        match r {
            Some(n) => find_node(nodes@, id) == Some(*n),
            None => find_node(nodes@, id) is None,
        },
{
    proof {
        lemma_find_loc_from(nodes@, id, 0);
    }
    match find_loc_in(nodes, id) {
        Some((p, i)) => {
            assert(ipath(p@).skip(0) =~= ipath(p@));
            let list = list_ref_at(nodes, &p, 0);
            Some(&list[i])
        },
        None => None,
    }
}

/// Whether some node of `nodes` has identifier `id`.
pub fn contains_id_in(nodes: &Vec<LayerNode>, id: LayerId) -> (r: bool)
    ensures
        r == contains_id(nodes@, id),
{
    proof {
        lemma_find_iff_locate(nodes@, id);
    }
    find_loc_in(nodes, id).is_some()
}

/// Identifier of the group whose children form the list at `path`;
/// `None` for the root list.
pub open spec fn parent_id(nodes: Seq<LayerNode>, path: Seq<int>) -> Option<LayerId> {
    if path.len() == 0 {
        None
    } else {
        Some(node_at(nodes, path.drop_last(), path.last()).node_id())
    }
}

/// Parent (`None` = root) and index of the first node `id` met
/// depth-first.
pub open spec fn owner_position(nodes: Seq<LayerNode>, id: LayerId) -> Option<
    (Option<LayerId>, int),
> {
    match find_loc(nodes, id) {
        Some((p, i)) => Some((parent_id(nodes, p), i)),
        None => None,
    }
}

/// Parent and index of the first node `id` met depth-first.
pub fn owner_position_in(nodes: &Vec<LayerNode>, id: LayerId) -> (r: Option<(Option<LayerId>, usize)>)
    ensures
        match r {
            Some((parent, i)) => owner_position(nodes@, id) == Some((parent, i as int)),
            None => owner_position(nodes@, id) is None,
        },
{
    proof {
        lemma_find_loc_from(nodes@, id, 0);
    }
    match find_loc_in(nodes, id) {
        Some((p, i)) => {
            if p.len() == 0 {
                return Some((None, i));
            }
            let mut up = p.clone();
            let last = up.pop().unwrap();
            proof {
                lemma_list_at_parent(nodes@, ipath(p@));
                assert(ipath(p@).drop_last() =~= ipath(up@));
                assert(ipath(up@).skip(0) =~= ipath(up@));
            }
            let list = list_ref_at(nodes, &up, 0);
            Some((Some(list[last].id()), i))
        },
        None => None,
    }
}

// ---------------------------------------------------------------------------
// Editing a child list in place
// ---------------------------------------------------------------------------

/// Takes the child list at `path` (from step `depth` on) out of the
/// forest, leaving an empty list in its place.
pub fn take_list_at(nodes: &mut Vec<LayerNode>, path: &Vec<usize>, depth: usize) -> (taken: Vec<
    LayerNode,
>)
    requires
        depth <= path@.len(),
        valid_path(old(nodes)@, ipath(path@).skip(depth as int)),
    ensures
        taken@ == list_at(old(nodes)@, ipath(path@).skip(depth as int)),
        replaced(old(nodes)@, ipath(path@).skip(depth as int), Seq::empty(), final(nodes)@),
    decreases path@.len() - depth,
{
    if depth == path.len() {
        let mut out: Vec<LayerNode> = Vec::new();
        std::mem::swap(&mut out, nodes);
        assert(ipath(path@).skip(depth as int) =~= Seq::<int>::empty());
        return out;
    }
    proof {
        lemma_ipath_skip(path@, depth as int);
    }
    let k = path[depth];
    let mut node = nodes.remove(k);
    let taken = match node {
        LayerNode::Group(ref mut g) => take_list_at(&mut g.children, path, depth + 1),
        _ => {
            assert(false);
            Vec::new()
        },
    };
    nodes.insert(k, node);
    proof {
        let p = ipath(path@).skip(depth as int);
        assert(nodes@.len() == old(nodes)@.len());
        assert forall|j: int| 0 <= j < old(nodes)@.len() && j != k implies nodes@[j] == old(
            nodes,
        )@[j] by {}
    }
    taken
}

/// Puts `list` as the child list at `path` (from step `depth` on).
pub fn put_list_at(nodes: &mut Vec<LayerNode>, path: &Vec<usize>, depth: usize, list: Vec<LayerNode>)
    requires
        depth <= path@.len(),
        valid_path(old(nodes)@, ipath(path@).skip(depth as int)),
    ensures
        replaced(old(nodes)@, ipath(path@).skip(depth as int), list@, final(nodes)@),
    decreases path@.len() - depth,
{
    if depth == path.len() {
        *nodes = list;
        assert(ipath(path@).skip(depth as int) =~= Seq::<int>::empty());
        return;
    }
    proof {
        lemma_ipath_skip(path@, depth as int);
    }
    let k = path[depth];
    let mut node = nodes.remove(k);
    match node {
        LayerNode::Group(ref mut g) => put_list_at(&mut g.children, path, depth + 1, list),
        _ => {
            assert(false);
        },
    };
    nodes.insert(k, node);
    proof {
        assert forall|j: int| 0 <= j < old(nodes)@.len() && j != k implies nodes@[j] == old(
            nodes,
        )@[j] by {}
    }
}

} // verus!
