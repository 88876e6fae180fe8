//! Moving a node one step among its siblings and back.

use crate::copying::{forest_copied, lemma_forest_copied_refl, lemma_replaced_copied};
use crate::document::swapped;
use crate::forest::{
    index_of, lemma_index_of, lemma_locate, lemma_replaced_list, lemma_replaced_twice, list_at, locate,
    locate_in_groups, replaced,
};
use crate::ids::LayerId;
use crate::model::LayerNode;
use vstd::prelude::*;

verus! {

/// Effect of `Document::move_up` on the forest: the node `id` (as
/// `locate` finds it) exchanged with its upper neighbour; nothing when it
/// is absent or already on top.
pub open spec fn moved_up(old: Seq<LayerNode>, id: LayerId, moved: bool, new: Seq<LayerNode>) -> bool {
    match locate(old, id) {
        Some((p, i)) => if i + 1 < list_at(old, p).len() {
            moved && replaced(old, p, swapped(list_at(old, p), i, i + 1), new)
        } else {
            !moved && new == old
        },
        None => !moved && new == old,
    }
}

/// Effect of `Document::move_down` on the forest: the node `id`
/// exchanged with its lower neighbour; nothing when it is absent or
/// already at the bottom.
pub open spec fn moved_down(old: Seq<LayerNode>, id: LayerId, moved: bool, new: Seq<LayerNode>) -> bool {
    match locate(old, id) {
        Some((p, i)) => if i > 0 {
            moved && replaced(old, p, swapped(list_at(old, p), i, i - 1), new)
        } else {
            !moved && new == old
        },
        None => !moved && new == old,
    }
}

/// The first `id` of a list, exchanged with a neighbour of another
/// identifier, is found at the neighbour's place.
proof fn lemma_index_of_swapped(l: Seq<LayerNode>, id: LayerId, i: int, j: int)
    requires
        index_of(l, id) == Some(i),
        0 <= j < l.len(),
        j == i + 1 || j == i - 1,
        l[j].node_id() != id,
    ensures
        index_of(swapped(l, i, j), id) == Some(j),
{
    lemma_index_of(l, id);
    let s = swapped(l, i, j);
    lemma_index_of(s, id);
    assert(s[j] == l[i]);
    assert(s[i] == l[j]);
    assert forall|k: int| 0 <= k < j implies (#[trigger] s[k]).node_id() != id by {
        if k != i {
            assert(s[k] == l[k]);
        }
    }
}

/// Two lists whose nodes have the same identifiers, place by place, find
/// any identifier at the same place.
proof fn lemma_index_of_same_ids(a: Seq<LayerNode>, b: Seq<LayerNode>, id: LayerId)
    requires
        a.len() == b.len(),
        forall|k: int| 0 <= k < a.len() ==> (#[trigger] a[k]).node_id() == b[k].node_id(),
    ensures
        index_of(a, id) == index_of(b, id),
    decreases a.len(),
{
    if a.len() > 0 {
        assert forall|k: int| 0 <= k < a.drop_first().len() implies (
        #[trigger] a.drop_first()[k]).node_id() == b.drop_first()[k].node_id() by {
            assert(a.drop_first()[k] == a[k + 1]);
            assert(b.drop_first()[k] == b[k + 1]);
        }
        lemma_index_of_same_ids(a.drop_first(), b.drop_first(), id);
    }
}

/// Replacing a child list below the top keeps the identifiers of the top
/// list, place by place.
proof fn lemma_replaced_keeps_top_ids(old: Seq<LayerNode>, p: Seq<int>, list: Seq<LayerNode>, new: Seq<LayerNode>)
    requires
        p.len() > 0,
        replaced(old, p, list, new),
    ensures
        new.len() == old.len(),
        forall|k: int| 0 <= k < old.len() ==> (#[trigger] old[k]).node_id() == new[k].node_id(),
{
}

/// Moving the node found by the search among groups one step past a
/// neighbour of another identifier: the search from `k` then finds it at
/// the neighbour's place.
proof fn lemma_locate_in_groups_swapped(
    old: Seq<LayerNode>,
    id: LayerId,
    p: Seq<int>,
    i: int,
    j: int,
    new: Seq<LayerNode>,
    k: int,
)
    requires
        p.len() > 0,
        0 <= k <= p[0],
        locate_in_groups(old, id, k) == Some((p, i)),
        0 <= j < list_at(old, p).len(),
        j == i + 1 || j == i - 1,
        list_at(old, p)[j].node_id() != id,
        replaced(old, p, swapped(list_at(old, p), i, j), new),
    ensures
        locate_in_groups(new, id, k) == Some((p, j)),
    decreases p.len(), p[0] - k,
{
    let k0 = p[0];
    let p2 = p.drop_first();
    assert(new.len() == old.len());
    if k < k0 {
        assert(new[k] == old[k]);
        let inner = match old[k] {
            LayerNode::Group(g) => match index_of(g.children@, id) {
                Some(m) => Some((Seq::<int>::empty(), m)),
                None => locate_in_groups(g.children@, id, 0),
            },
            _ => None,
        };
        if inner is Some {
            let (q, m) = inner->0;
            assert((seq![k] + q)[0] == k);
        }
        lemma_locate_in_groups_swapped(old, id, p, i, j, new, k + 1);
    } else {
        match (old[k0], new[k0]) {
            (LayerNode::Group(go), LayerNode::Group(gn)) => {
                assert(list_at(old, p) == list_at(go.children@, p2));
                let inner = match index_of(go.children@, id) {
                    Some(m) => Some((Seq::<int>::empty(), m)),
                    None => locate_in_groups(go.children@, id, 0),
                };
                assert(inner is Some) by {
                    if inner is None {
                        assert(locate_in_groups(old, id, k) == locate_in_groups(old, id, k + 1));
                        assert(false) by {
                            lemma_locate_in_groups_after(old, id, k + 1, p, i);
                        }
                    }
                }
                let (q, m) = inner->0;
                assert(seq![k0] + q == p);
                assert(q =~= p2);
                assert(m == i);
                assert(replaced(go.children@, p2, swapped(list_at(old, p), i, j), gn.children@));
                if p2.len() == 0 {
                    if index_of(go.children@, id) is None {
                        lemma_locate_in_groups_after(go.children@, id, 0, q, m);
                    }
                    assert(gn.children@ == swapped(go.children@, i, j));
                    lemma_index_of_swapped(go.children@, id, i, j);
                    assert(seq![k0] + Seq::<int>::empty() =~= p);
                } else {
                    assert(index_of(go.children@, id) is None) by {
                        if index_of(go.children@, id) is Some {
                            assert(q.len() == 0);
                        }
                    }
                    lemma_replaced_keeps_top_ids(go.children@, p2, swapped(list_at(old, p), i, j), gn.children@);
                    lemma_index_of_same_ids(go.children@, gn.children@, id);
                    lemma_locate_in_groups_after(go.children@, id, 0, p2, i);
                    lemma_locate_in_groups_swapped(go.children@, id, p2, i, j, gn.children@, 0);
                    assert(seq![k0] + p2 =~= p);
                }
            },
            _ => {},
        }
    }
}

/// What the search among groups from `k` finds starts at a group at `k`
/// or after it.
proof fn lemma_locate_in_groups_after(nodes: Seq<LayerNode>, id: LayerId, k: int, p: Seq<int>, i: int)
    requires
        locate_in_groups(nodes, id, k) == Some((p, i)),
    ensures
        p.len() > 0,
        p[0] >= k,
    decreases nodes.len() - k,
{
    if 0 <= k < nodes.len() {
        let inner = match nodes[k] {
            LayerNode::Group(g) => match index_of(g.children@, id) {
                Some(m) => Some((Seq::<int>::empty(), m)),
                None => locate_in_groups(g.children@, id, 0),
            },
            _ => None,
        };
        match inner {
            Some((q, m)) => {
                assert((seq![k] + q)[0] == k);
            },
            None => {
                lemma_locate_in_groups_after(nodes, id, k + 1, p, i);
            },
        }
    }
}

/// Moving the node that `locate` finds one step past a neighbour of
/// another identifier: `locate` then finds it at the neighbour's place.
proof fn lemma_locate_swapped(old: Seq<LayerNode>, id: LayerId, p: Seq<int>, i: int, j: int, new: Seq<LayerNode>)
    requires
        locate(old, id) == Some((p, i)),
        0 <= j < list_at(old, p).len(),
        j == i + 1 || j == i - 1,
        list_at(old, p)[j].node_id() != id,
        replaced(old, p, swapped(list_at(old, p), i, j), new),
    ensures
        locate(new, id) == Some((p, j)),
{
    if index_of(old, id) is Some {
        assert(p.len() == 0);
        assert(new == swapped(old, i, j));
        lemma_index_of_swapped(old, id, i, j);
    } else {
        lemma_locate_in_groups_after(old, id, 0, p, i);
        lemma_replaced_keeps_top_ids(old, p, swapped(list_at(old, p), i, j), new);
        lemma_index_of_same_ids(old, new, id);
        lemma_locate_in_groups_swapped(old, id, p, i, j, new, 0);
    }
}

/// Moving a node up and then down gives back an exact copy of the forest,
/// unless its upper neighbour carries the same identifier.
pub proof fn law_move_up_then_down(
    old: Seq<LayerNode>,
    id: LayerId,
    up: bool,
    mid: Seq<LayerNode>,
    down: bool,
    new: Seq<LayerNode>,
)
    requires
        moved_up(old, id, up, mid),
        up,
        moved_down(mid, id, down, new),
        locate(old, id) matches Some((p, i)) && list_at(old, p)[i + 1].node_id() != id,
    ensures
        down,
        forest_copied(old, new, false),
{
    lemma_locate(old, id);
    let (p, i) = locate(old, id)->0;
    let l = list_at(old, p);
    lemma_replaced_list(old, p, swapped(l, i, i + 1), mid);
    lemma_locate_swapped(old, id, p, i, i + 1, mid);
    assert(swapped(swapped(l, i, i + 1), i + 1, i) =~= l);
    lemma_replaced_twice(old, p, swapped(l, i, i + 1), mid, l, new);
    lemma_forest_copied_refl(l);
    lemma_replaced_copied(old, p, l, new);
}

/// Moving a node down and then up gives back an exact copy of the forest,
/// unless its lower neighbour carries the same identifier.
pub proof fn law_move_down_then_up(
    old: Seq<LayerNode>,
    id: LayerId,
    down: bool,
    mid: Seq<LayerNode>,
    up: bool,
    new: Seq<LayerNode>,
)
    requires
        moved_down(old, id, down, mid),
        down,
        moved_up(mid, id, up, new),
        locate(old, id) matches Some((p, i)) && list_at(old, p)[i - 1].node_id() != id,
    ensures
        up,
        forest_copied(old, new, false),
{
    lemma_locate(old, id);
    let (p, i) = locate(old, id)->0;
    let l = list_at(old, p);
    lemma_replaced_list(old, p, swapped(l, i, i - 1), mid);
    lemma_locate_swapped(old, id, p, i, i - 1, mid);
    assert(swapped(swapped(l, i, i - 1), i - 1, i) =~= l);
    lemma_replaced_twice(old, p, swapped(l, i, i - 1), mid, l, new);
    lemma_forest_copied_refl(l);
    lemma_replaced_copied(old, p, l, new);
}

} // verus!
