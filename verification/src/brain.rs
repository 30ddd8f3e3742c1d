//! The knowledge-graph node record and its store key.

use vstd::prelude::*;

use crate::text::concat_str;

verus! {

/// A stored knowledge-graph node.
pub struct BrainNode {
    /// Content hash of the canonical name or URL.
    pub id: String,
    /// Concept name or page title.
    pub label: String,
    /// Summary or main content.
    pub summary: String,
    /// Source URLs or notes.
    pub sources: Vec<String>,
    /// Ids of related nodes, each held once.
    pub edges: Vec<String>,
    /// When the node was last trained.
    pub last_trained: String,
}

impl BrainNode {
    /// No edge id occurs twice.
    pub open spec fn edges_unique(&self) -> bool {
        forall|i: int, j: int|
            0 <= i < j < self.edges@.len() ==> self.edges@[i]@ != self.edges@[j]@
    }

    /// Links this node to another: the edge is added unless it is already
    /// there, and the edges stay duplicate-free.
    pub fn add_edge(&mut self, to: &str)
        requires
            old(self).edges_unique(),
        ensures
            final(self).edges_unique(),
            final(self).edges.deep_view().contains(to@),
            old(self).edges.deep_view().contains(to@) ==> final(self).edges == old(self).edges,
            !old(self).edges.deep_view().contains(to@) ==> final(self).edges@.len() == old(
                self,
            ).edges@.len() + 1,
            final(self).id == old(self).id,
            final(self).label == old(self).label,
            final(self).summary == old(self).summary,
            final(self).sources == old(self).sources,
            final(self).last_trained == old(self).last_trained,
    {
        if !crate::crawl::contains_string(&self.edges, to) {
            let ghost old_edges = self.edges@;
            self.edges.push(to.to_owned());
            proof {
                assert(self.edges.deep_view()[self.edges@.len() - 1] == to@);
                assert forall|i: int, j: int|
                    0 <= i < j < self.edges@.len() implies self.edges@[i]@ != self.edges@[j]@ by {
                    if j == self.edges@.len() - 1 {
                        assert(self.edges@[i] == old_edges[i]);
                        assert(old(self).edges.deep_view()[i] == old_edges[i]@);
                        assert(self.edges@[j]@ == to@);
                    } else {
                        assert(self.edges@[i] == old_edges[i]);
                        assert(self.edges@[j] == old_edges[j]);
                    }
                }
            }
        }
    }
}

/// The store key of a knowledge-graph node.
pub fn brain_node_key(id: &str) -> (r: String)
    ensures
        r@ == "brain:node:"@ + id@,
{
    concat_str("brain:node:", id)
}

} // verus!
