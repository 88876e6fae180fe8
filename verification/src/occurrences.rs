//! How many nodes of a forest carry an identifier, and how removing or
//! replacing a node changes that number.

use crate::forest::{list_at, node_at, occurs_from, replaced, valid_loc};
use crate::ids::LayerId;
use crate::model::LayerNode;
use vstd::prelude::*;

verus! {

/// How many nodes of a list from index `k` on, their descendants
/// included, have the identifier `id`.
pub open spec fn id_count_from(nodes: Seq<LayerNode>, id: LayerId, k: int) -> nat
    decreases nodes, nodes.len() - k,
{
    if k < 0 || k >= nodes.len() {
        0
    } else {
        (if nodes[k].node_id() == id {
            1nat
        } else {
            0nat
        }) + match nodes[k] {
            LayerNode::Group(g) => id_count_from(g.children@, id, 0),
            _ => 0nat,
        } + id_count_from(nodes, id, k + 1)
    }
}

/// How many nodes of the forest have the identifier `id`.
pub open spec fn id_count(nodes: Seq<LayerNode>, id: LayerId) -> nat {
    id_count_from(nodes, id, 0)
}

/// How many nodes of the subtree of `n`, itself included, have `id`.
pub open spec fn node_id_count(n: LayerNode, id: LayerId) -> nat {
    (if n.node_id() == id {
        1nat
    } else {
        0nat
    }) + match n {
        LayerNode::Group(g) => id_count_from(g.children@, id, 0),
        _ => 0nat,
    }
}

/// An identifier occurs exactly when it is counted.
pub proof fn lemma_count_occurs(nodes: Seq<LayerNode>, id: LayerId, k: int)
    ensures
        occurs_from(nodes, id, k) == (id_count_from(nodes, id, k) > 0),
    decreases nodes, nodes.len() - k,
{
    if 0 <= k < nodes.len() {
        match nodes[k] {
            LayerNode::Group(g) => {
                lemma_count_occurs(g.children@, id, 0);
            },
            _ => {},
        }
        lemma_count_occurs(nodes, id, k + 1);
    }
}

/// Counting from `k` is the node at `k` then the rest.
proof fn lemma_count_step(nodes: Seq<LayerNode>, id: LayerId, k: int)
    requires
        0 <= k < nodes.len(),
    ensures
        id_count_from(nodes, id, k) == node_id_count(nodes[k], id) + id_count_from(nodes, id, k + 1),
{
}

/// Two lists that differ at most at index `i` (of the same length): the
/// counts from `k <= i` differ as the two nodes at `i` do.
proof fn lemma_count_update(a: Seq<LayerNode>, b: Seq<LayerNode>, id: LayerId, i: int, k: int)
    requires
        0 <= k <= i < a.len(),
        b.len() == a.len(),
        forall|j: int| 0 <= j < a.len() && j != i ==> b[j] == a[j],
    ensures
        id_count_from(b, id, k) + node_id_count(a[i], id) == id_count_from(a, id, k) + node_id_count(
            b[i],
            id,
        ),
    decreases a.len() - k,
{
    lemma_count_step(a, id, k);
    lemma_count_step(b, id, k);
    if k < i {
        lemma_count_update(a, b, id, i, k + 1);
    } else {
        lemma_count_tail_same(a, b, id, k + 1);
    }
}

/// Two lists equal from index `k` on count the same from `k`.
proof fn lemma_count_tail_same(a: Seq<LayerNode>, b: Seq<LayerNode>, id: LayerId, k: int)
    requires
        0 <= k,
        b.len() == a.len(),
        forall|j: int| k <= j < a.len() ==> b[j] == a[j],
    ensures
        id_count_from(b, id, k) == id_count_from(a, id, k),
    decreases a.len() - k,
{
    if k < a.len() {
        lemma_count_tail_same(a, b, id, k + 1);
    }
}

/// The list without the node at `i` counts, from `k`, what the list counts
/// without that node's subtree.
proof fn lemma_count_remove(s: Seq<LayerNode>, id: LayerId, i: int, k: int)
    requires
        0 <= k <= i < s.len(),
    ensures
        id_count_from(s.remove(i), id, k) + node_id_count(s[i], id) == id_count_from(s, id, k),
    decreases i - k,
{
    lemma_count_step(s, id, k);
    if k < i {
        lemma_count_step(s.remove(i), id, k);
        lemma_count_remove(s, id, i, k + 1);
    } else {
        lemma_count_shift(s, id, i, i);
    }
}

/// After the node at `i` is removed, the count from `m >= i` is that of
/// the list from `m + 1`.
proof fn lemma_count_shift(s: Seq<LayerNode>, id: LayerId, i: int, m: int)
    requires
        0 <= i <= m,
        i < s.len(),
    ensures
        id_count_from(s.remove(i), id, m) == id_count_from(s, id, m + 1),
    decreases s.len() - m,
{
    if m < s.len() - 1 {
        lemma_count_step(s.remove(i), id, m);
        lemma_count_step(s, id, m + 1);
        lemma_count_shift(s, id, i, m + 1);
    }
}

/// Replacing the list at `path` changes the count of the forest as it
/// changes the count of that list.
pub proof fn lemma_count_replaced(old: Seq<LayerNode>, path: Seq<int>, list: Seq<LayerNode>, new: Seq<LayerNode>, id: LayerId)
    requires
        replaced(old, path, list, new),
    ensures
        id_count(new, id) + id_count(list_at(old, path), id) == id_count(old, id) + id_count(list, id),
    decreases path.len(),
{
    if path.len() > 0 {
        let k = path[0];
        match (old[k], new[k]) {
            (LayerNode::Group(go), LayerNode::Group(gn)) => {
                lemma_count_replaced(go.children@, path.drop_first(), list, gn.children@, id);
                lemma_count_update(old, new, id, k, 0);
            },
            _ => {},
        }
    }
}

/// Removing the node at `(p, i)` removes the count of its subtree.
pub proof fn lemma_count_removed(old: Seq<LayerNode>, p: Seq<int>, i: int, new: Seq<LayerNode>, id: LayerId)
    requires
        valid_loc(old, p, i),
        replaced(old, p, list_at(old, p).remove(i), new),
    ensures
        id_count(new, id) + node_id_count(node_at(old, p, i), id) == id_count(old, id),
{
    lemma_count_replaced(old, p, list_at(old, p).remove(i), new, id);
    lemma_count_remove(list_at(old, p), id, i, 0);
}

} // verus!
