//! Laws of the relationship tables. The favorite and follow handlers
//! state their effects over `edge_insert` and `edge_remove`; the proofs
//! here pin down what those operations guarantee on a table with
//! pairwise-distinct edges.

use vstd::prelude::*;
use crate::store::edge_insert;
use crate::store::edge_remove;
use crate::store::edges_distinct;
use crate::store::pair_count;

verus! {

proof fn lemma_pair_count_distinct(edges: Seq<(int, int)>, edge: (int, int))
    requires
        edges_distinct(edges),
    ensures
        pair_count(edges, edge) == (if exists|i: int| 0 <= i < edges.len() && edges[i] == edge {
            1int
        } else {
            0int
        }),
    decreases edges.len(),
{
    if edges.len() > 0 {
        let prefix = edges.drop_last();
        assert(edges_distinct(prefix)) by {
            assert(forall|i: int| 0 <= i < prefix.len() ==> prefix[i] == edges[i]);
        }
        lemma_pair_count_distinct(prefix, edge);
        if edges.last() == edge {
            assert(!(exists|i: int| 0 <= i < prefix.len() && prefix[i] == edge)) by {
                if exists|i: int| 0 <= i < prefix.len() && prefix[i] == edge {
                    let i = choose|i: int| 0 <= i < prefix.len() && prefix[i] == edge;
                    assert(edges[i] == edges[edges.len() - 1]);
                }
            }
            assert(exists|i: int| 0 <= i < edges.len() && edges[i] == edge) by {
                assert(edges[edges.len() - 1] == edge);
            }
        } else {
            assert((exists|i: int| 0 <= i < edges.len() && edges[i] == edge) == (exists|i: int|
                0 <= i < prefix.len() && prefix[i] == edge)) by {
                if exists|i: int| 0 <= i < edges.len() && edges[i] == edge {
                    let i = choose|i: int| 0 <= i < edges.len() && edges[i] == edge;
                    assert(i < prefix.len() && prefix[i] == edge);
                }
            }
        }
    }
}

/// Idempotent relationship writes: recording an edge that is already
/// present changes nothing, so a second `favorite` or `follow` of the same
/// pair leaves exactly one copy of the edge; deleting an absent edge
/// changes nothing, so `unfavorite` and `unfollow` succeed without error
/// on a pair that was never recorded. The handlers' contracts state their
/// effects over `edge_insert` and `edge_remove`, of which this holds.
pub proof fn lemma_edge_idempotence(edges: Seq<(int, int)>, edge: (int, int))
    requires
        edges_distinct(edges),
    ensures
        edges_distinct(edge_insert(edges, edge)),
        edge_insert(edge_insert(edges, edge), edge) == edge_insert(edges, edge),
        pair_count(edge_insert(edges, edge), edge) == 1,
        pair_count(edge_insert(edge_insert(edges, edge), edge), edge) == 1,
        !(exists|i: int| 0 <= i < edges.len() && edges[i] == edge) ==> edge_remove(edges, edge)
            == edges,
        pair_count(edge_remove(edges, edge), edge) == 0,
{
    lemma_pair_count_distinct(edges, edge);
    let inserted = edge_insert(edges, edge);
    if exists|i: int| 0 <= i < edges.len() && edges[i] == edge {
        assert(inserted == edges);
        assert(pair_count(inserted, edge) == 1);
    } else {
        assert(inserted == edges.push(edge));
        assert(edges_distinct(inserted)) by {
            assert(forall|i: int| 0 <= i < edges.len() ==> inserted[i] == edges[i]);
            assert(inserted[inserted.len() - 1] == edge);
        }
        assert(inserted.drop_last() =~= edges);
        assert(inserted.last() == edge);
        assert(pair_count(inserted, edge) == pair_count(edges, edge) + 1);
    }
    assert(exists|i: int| 0 <= i < inserted.len() && inserted[i] == edge) by {
        lemma_pair_count_distinct(inserted, edge);
    }
    assert(edge_insert(inserted, edge) == inserted);
    if exists|i: int| 0 <= i < edges.len() && edges[i] == edge {
        let ix = choose|i: int| 0 <= i < edges.len() && edges[i] == edge;
        let removed = edges.remove(ix);
        assert(edge_remove(edges, edge) == removed);
        assert(!(exists|i: int| 0 <= i < removed.len() && removed[i] == edge)) by {
            if exists|i: int| 0 <= i < removed.len() && removed[i] == edge {
                let i = choose|i: int| 0 <= i < removed.len() && removed[i] == edge;
                let i2 = if i < ix {
                    i
                } else {
                    i + 1
                };
                assert(removed[i] == edges[i2]);
                assert(edges[i2] == edges[ix] && i2 != ix);
            }
        }
        assert(edges_distinct(removed)) by {
            assert forall|a: int, b: int| 0 <= a < b < removed.len() implies removed[a]
                != removed[b] by {
                let a2 = if a < ix {
                    a
                } else {
                    a + 1
                };
                let b2 = if b < ix {
                    b
                } else {
                    b + 1
                };
                assert(removed[a] == edges[a2]);
                assert(removed[b] == edges[b2]);
            }
        }
        lemma_pair_count_distinct(removed, edge);
    } else {
        assert(edge_remove(edges, edge) == edges);
    }
}

} // verus!
