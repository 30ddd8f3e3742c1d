//! The knowledge store: idempotent persistence of nodes and provenance
//! triples, and a bounded substring search.
//!
//! A node is keyed by its content-hash id; a triple by its
//! (subject, predicate, object) natural key. Upserts replace the earlier
//! record under the same key, so re-acquiring the same source never
//! duplicates. Entries are kept in write order: the most recent write is
//! last, and search walks from the back.

use vstd::prelude::*;

use crate::text::{has_sub, lower_str, str_contains, str_eq, to_lower};

verus! {

/// Most nodes a search returns.
pub const SEARCH_LIMIT: usize = 10;

/// A stored unit of acquired knowledge.
pub struct KnowledgeNode {
    /// Content hash of the canonical source identifier.
    pub id: String,
    /// Title or concept name.
    pub label: String,
    /// Truncated text.
    pub summary: String,
    /// Source metadata, already serialized.
    pub payload: String,
    pub created_at: String,
}

/// A subject-predicate-object provenance record. The confidence weight is
/// kept in hundredths: 90 stands for a confidence of 0.90.
pub struct KnowledgeTriple {
    pub subject: String,
    pub predicate: String,
    pub object: String,
    pub confidence_centi: u64,
    pub created_at: String,
}

/// The triple carries the given natural key.
pub open spec fn triple_has_key(t: KnowledgeTriple, s: Seq<char>, p: Seq<char>, o: Seq<
    char,
>) -> bool {
    t.subject@ == s && t.predicate@ == p && t.object@ == o
}

impl KnowledgeNode {
    /// A copy equal to this node.
    pub fn duplicate(&self) -> (r: KnowledgeNode)
        ensures
            r == *self,
    {
        KnowledgeNode {
            id: self.id.clone(),
            label: self.label.clone(),
            summary: self.summary.clone(),
            payload: self.payload.clone(),
            created_at: self.created_at.clone(),
        }
    }
}

impl KnowledgeTriple {
    /// A copy equal to this triple.
    pub fn duplicate(&self) -> (r: KnowledgeTriple)
        ensures
            r == *self,
    {
        KnowledgeTriple {
            subject: self.subject.clone(),
            predicate: self.predicate.clone(),
            object: self.object.clone(),
            confidence_centi: self.confidence_centi,
            created_at: self.created_at.clone(),
        }
    }
}

/// In-memory model of the node and triple tables.
pub struct KnowledgeStore {
    nodes: Vec<KnowledgeNode>,
    triples: Vec<KnowledgeTriple>,
}

/// The sequence with every node under `id` removed, in the original order.
pub open spec fn nodes_without(nodes: Seq<KnowledgeNode>, id: Seq<char>) -> Seq<KnowledgeNode>
    decreases nodes.len(),
{
    if nodes.len() == 0 {
        Seq::empty()
    } else {
        let rest = nodes_without(nodes.drop_last(), id);
        if nodes.last().id@ == id {
            rest
        } else {
            rest.push(nodes.last())
        }
    }
}

/// The store's nodes after an upsert: the old entry under the same id is
/// dropped and the new node appended as the most recent write.
pub open spec fn upserted_nodes(nodes: Seq<KnowledgeNode>, n: KnowledgeNode) -> Seq<
    KnowledgeNode,
> {
    nodes_without(nodes, n.id@).push(n)
}

/// The sequence with every triple under the (subject, predicate, object)
/// key removed.
pub open spec fn triples_without(
    triples: Seq<KnowledgeTriple>,
    s: Seq<char>,
    p: Seq<char>,
    o: Seq<char>,
) -> Seq<KnowledgeTriple>
    decreases triples.len(),
{
    if triples.len() == 0 {
        Seq::empty()
    } else {
        let rest = triples_without(triples.drop_last(), s, p, o);
        if triple_has_key(triples.last(), s, p, o) {
            rest
        } else {
            rest.push(triples.last())
        }
    }
}

/// The store's triples after an upsert.
pub open spec fn upserted_triples(triples: Seq<KnowledgeTriple>, t: KnowledgeTriple) -> Seq<
    KnowledgeTriple,
> {
    triples_without(triples, t.subject@, t.predicate@, t.object@).push(t)
}

/// A node matches a query when the lower-cased query occurs in its
/// lower-cased id, label or summary; the empty query matches every node.
pub open spec fn node_matches(n: KnowledgeNode, q: Seq<char>) -> bool {
    ||| has_sub(to_lower(n.id@), to_lower(q))
    ||| has_sub(to_lower(n.label@), to_lower(q))
    ||| has_sub(to_lower(n.summary@), to_lower(q))
}

/// The first `limit` matching nodes among the first `i`, scanning from the
/// most recent write backwards.
pub open spec fn search_from(
    nodes: Seq<KnowledgeNode>,
    q: Seq<char>,
    i: int,
    limit: int,
) -> Seq<KnowledgeNode>
    decreases i,
{
    if i <= 0 || i > nodes.len() || limit <= 0 {
        Seq::empty()
    } else if node_matches(nodes[i - 1], q) {
        seq![nodes[i - 1]] + search_from(nodes, q, i - 1, limit - 1)
    } else {
        search_from(nodes, q, i - 1, limit)
    }
}

/// The search result: most recent matches first, at most `SEARCH_LIMIT`.
pub open spec fn spec_search(nodes: Seq<KnowledgeNode>, q: Seq<char>) -> Seq<KnowledgeNode> {
    search_from(nodes, q, nodes.len() as int, SEARCH_LIMIT as int)
}

/// No two nodes share an id.
pub open spec fn nodes_unique(nodes: Seq<KnowledgeNode>) -> bool {
    forall|i: int, j: int| 0 <= i < j < nodes.len() ==> nodes[i].id@ != nodes[j].id@
}

/// No two triples share the natural key.
pub open spec fn triples_unique(triples: Seq<KnowledgeTriple>) -> bool {
    forall|i: int, j: int|
        0 <= i < j < triples.len() ==> !triple_has_key(
            triples[i],
            triples[j].subject@,
            triples[j].predicate@,
            triples[j].object@,
        )
}

impl KnowledgeStore {
    /// The stored nodes, oldest write first.
    pub closed spec fn nodes_view(&self) -> Seq<KnowledgeNode> {
        self.nodes@
    }

    /// The stored triples, oldest write first.
    pub closed spec fn triples_view(&self) -> Seq<KnowledgeTriple> {
        self.triples@
    }

    /// Key uniqueness of both tables.
    pub open spec fn wf(&self) -> bool {
        nodes_unique(self.nodes_view()) && triples_unique(self.triples_view())
    }

    pub fn new() -> (r: KnowledgeStore)
        ensures
            r.wf(),
            r.nodes_view() == Seq::<KnowledgeNode>::empty(),
            r.triples_view() == Seq::<KnowledgeTriple>::empty(),
    {
        KnowledgeStore { nodes: Vec::new(), triples: Vec::new() }
    }

    /// Number of stored nodes.
    pub fn node_count(&self) -> (r: usize)
        ensures
            r == self.nodes_view().len(),
    {
        self.nodes.len()
    }

    /// The stored nodes as a vector, oldest write first.
    pub fn all_nodes(&self) -> (r: Vec<KnowledgeNode>)
        ensures
            r@ == self.nodes_view(),
    {
        let mut out: Vec<KnowledgeNode> = Vec::new();
        let mut i: usize = 0;
        while i < self.nodes.len()
            invariant
                i <= self.nodes@.len(),
                out@ == self.nodes@.subrange(0, i as int),
            decreases self.nodes@.len() - i,
        {
            out.push(self.nodes[i].duplicate());
            i = i + 1;
            proof {
                assert(out@ =~= self.nodes@.subrange(0, i as int));
            }
        }
        proof {
            assert(out@ =~= self.nodes@);
        }
        out
    }

    /// Insert-or-replace keyed by `node.id`: the earlier record under the
    /// same id is overwritten, never duplicated.
    pub fn upsert_node(&mut self, node: KnowledgeNode)
        requires
            old(self).wf(),
        ensures
            final(self).wf(),
            final(self).nodes_view() == upserted_nodes(old(self).nodes_view(), node),
            final(self).triples_view() == old(self).triples_view(),
    {
        let ghost old_nodes = self.nodes@;
        let mut kept: Vec<KnowledgeNode> = Vec::new();
        let mut i: usize = 0;
        while i < self.nodes.len()
            invariant
                i <= self.nodes@.len(),
                self.nodes@ == old_nodes,
                kept@ == nodes_without(old_nodes.subrange(0, i as int), node.id@),
            decreases self.nodes@.len() - i,
        {
            let keep = !str_eq(self.nodes[i].id.as_str(), node.id.as_str());
            proof {
                let pre = old_nodes.subrange(0, i + 1);
                assert(pre.drop_last() =~= old_nodes.subrange(0, i as int));
                assert(pre.last() == old_nodes[i as int]);
            }
            if keep {
                kept.push(self.nodes[i].duplicate());
            }
            i = i + 1;
        }
        proof {
            assert(old_nodes.subrange(0, old_nodes.len() as int) =~= old_nodes);
        }
        kept.push(node);
        self.nodes = kept;
        proof {
            lemma_nodes_without_props(old_nodes, node.id@);
        }
    }

    /// Insert-or-replace keyed by (subject, predicate, object); the latest
    /// write wins.
    pub fn upsert_triple(&mut self, t: KnowledgeTriple)
        requires
            old(self).wf(),
        ensures
            final(self).wf(),
            final(self).triples_view() == upserted_triples(old(self).triples_view(), t),
            final(self).nodes_view() == old(self).nodes_view(),
    {
        let ghost old_triples = self.triples@;
        let mut kept: Vec<KnowledgeTriple> = Vec::new();
        let mut i: usize = 0;
        while i < self.triples.len()
            invariant
                i <= self.triples@.len(),
                self.triples@ == old_triples,
                kept@ == triples_without(
                    old_triples.subrange(0, i as int),
                    t.subject@,
                    t.predicate@,
                    t.object@,
                ),
            decreases self.triples@.len() - i,
        {
            let x = &self.triples[i];
            let keep = !(str_eq(x.subject.as_str(), t.subject.as_str()) && str_eq(
                x.predicate.as_str(),
                t.predicate.as_str(),
            ) && str_eq(x.object.as_str(), t.object.as_str()));
            proof {
                let pre = old_triples.subrange(0, i + 1);
                assert(pre.drop_last() =~= old_triples.subrange(0, i as int));
                assert(pre.last() == old_triples[i as int]);
            }
            if keep {
                kept.push(self.triples[i].duplicate());
            }
            i = i + 1;
        }
        proof {
            assert(old_triples.subrange(0, old_triples.len() as int) =~= old_triples);
        }
        kept.push(t);
        self.triples = kept;
        proof {
            lemma_triples_without_props(old_triples, t.subject@, t.predicate@, t.object@);
        }
    }

    /// Substring search over id, label and summary, case-insensitive, most
    /// recent first, at most `SEARCH_LIMIT` results. The empty query
    /// returns the most recent nodes.
    pub fn search(&self, query: &str) -> (r: Vec<KnowledgeNode>)
        ensures
            r@ == spec_search(self.nodes_view(), query@),
    {
        let q_low = lower_str(query);
        let mut out: Vec<KnowledgeNode> = Vec::new();
        let mut i: usize = self.nodes.len();
        while i > 0
            invariant
                i <= self.nodes@.len(),
                out@.len() <= SEARCH_LIMIT,
                spec_search(self.nodes@, query@) == out@ + search_from(
                    self.nodes@,
                    query@,
                    i as int,
                    SEARCH_LIMIT - out@.len(),
                ),
                q_low@ == to_lower(query@),
            decreases i,
        {
            if out.len() >= SEARCH_LIMIT {
                proof {
                    assert(spec_search(self.nodes@, query@) =~= out@);
                }
                return out;
            }
            let n = &self.nodes[i - 1];
            let id_l = lower_str(n.id.as_str());
            let label_l = lower_str(n.label.as_str());
            let summary_l = lower_str(n.summary.as_str());
            let m = str_contains(id_l.as_str(), q_low.as_str()) || str_contains(
                label_l.as_str(),
                q_low.as_str(),
            ) || str_contains(summary_l.as_str(), q_low.as_str());
            if m {
                let ghost pre = out@;
                out.push(n.duplicate());
                proof {
                    assert(out@ =~= pre + seq![self.nodes@[i - 1]]);
                    assert(out@ + search_from(
                        self.nodes@,
                        query@,
                        i - 1,
                        SEARCH_LIMIT - out@.len(),
                    ) =~= pre + (seq![self.nodes@[i - 1]] + search_from(
                        self.nodes@,
                        query@,
                        i - 1,
                        SEARCH_LIMIT - out@.len(),
                    )));
                }
            }
            i = i - 1;
        }
        proof {
            assert(spec_search(self.nodes@, query@) =~= out@);
        }
        out
    }
}

/// Removing an id keeps the other nodes, their order, and uniqueness; the
/// result holds no node under the removed id, so appending one node under
/// it keeps ids unique.
pub proof fn lemma_nodes_without_props(nodes: Seq<KnowledgeNode>, id: Seq<char>)
    ensures
        forall|i: int|
            0 <= i < nodes_without(nodes, id).len() ==> #[trigger] nodes_without(nodes, id)[i].id@
                != id,
        forall|i: int|
            0 <= i < nodes_without(nodes, id).len() ==> nodes.contains(
                #[trigger] nodes_without(nodes, id)[i],
            ),
        nodes_without(nodes, id).len() <= nodes.len(),
        nodes_unique(nodes) ==> nodes_unique(nodes_without(nodes, id)),
        nodes_unique(nodes) ==> forall|n: KnowledgeNode|
            n.id@ == id ==> nodes_unique(#[trigger] nodes_without(nodes, id).push(n)),
    decreases nodes.len(),
{
    if nodes.len() == 0 {
    } else {
        let prefix = nodes.drop_last();
        lemma_nodes_without_props(prefix, id);
        assert(forall|i: int| 0 <= i < prefix.len() ==> prefix[i] == nodes[i]);
        assert(forall|x: KnowledgeNode| prefix.contains(x) ==> nodes.contains(x));
        let r = nodes_without(nodes, id);
        let rp = nodes_without(prefix, id);
        if nodes.last().id@ == id {
            assert(r == rp);
        } else {
            assert(r == rp.push(nodes.last()));
            assert(nodes.contains(nodes.last())) by {
                assert(nodes[nodes.len() - 1] == nodes.last());
            }
            if nodes_unique(nodes) {
                assert(nodes_unique(prefix));
                assert forall|i: int, j: int| 0 <= i < j < r.len() implies r[i].id@ != r[j].id@ by {
                    if j < rp.len() {
                        assert(r[i] == rp[i] && r[j] == rp[j]);
                    } else {
                        assert(r[j] == nodes.last());
                        assert(r[i] == rp[i]);
                        assert(prefix.contains(rp[i]));
                        let k = choose|k: int| 0 <= k < prefix.len() && prefix[k] == rp[i];
                        assert(nodes[k] == rp[i]);
                        assert(nodes[k].id@ != nodes[nodes.len() - 1].id@);
                    }
                }
            }
        }
    }
    let r = nodes_without(nodes, id);
    if nodes_unique(nodes) {
        assert forall|n: KnowledgeNode| n.id@ == id implies nodes_unique(#[trigger] r.push(n)) by {
            let rp = r.push(n);
            assert forall|i: int, j: int| 0 <= i < j < rp.len() implies rp[i].id@ != rp[j].id@ by {
                if j < r.len() {
                    assert(rp[i] == r[i] && rp[j] == r[j]);
                } else {
                    assert(rp[j] == n);
                    assert(rp[i] == r[i]);
                }
            }
        }
    }
}

/// The triple analogue of `lemma_nodes_without_props`.
pub proof fn lemma_triples_without_props(
    triples: Seq<KnowledgeTriple>,
    s: Seq<char>,
    p: Seq<char>,
    o: Seq<char>,
)
    ensures
        forall|i: int|
            0 <= i < triples_without(triples, s, p, o).len() ==> !triple_has_key(
                #[trigger] triples_without(triples, s, p, o)[i],
                s,
                p,
                o,
            ),
        forall|i: int|
            0 <= i < triples_without(triples, s, p, o).len() ==> triples.contains(
                #[trigger] triples_without(triples, s, p, o)[i],
            ),
        triples_without(triples, s, p, o).len() <= triples.len(),
        triples_unique(triples) ==> triples_unique(triples_without(triples, s, p, o)),
        triples_unique(triples) ==> forall|t: KnowledgeTriple|
            triple_has_key(t, s, p, o) ==> triples_unique(
                #[trigger] triples_without(triples, s, p, o).push(t),
            ),
    decreases triples.len(),
{
    if triples.len() == 0 {
    } else {
        let prefix = triples.drop_last();
        lemma_triples_without_props(prefix, s, p, o);
        assert(forall|i: int| 0 <= i < prefix.len() ==> prefix[i] == triples[i]);
        assert(forall|x: KnowledgeTriple| prefix.contains(x) ==> triples.contains(x));
        let r = triples_without(triples, s, p, o);
        let rp = triples_without(prefix, s, p, o);
        if triple_has_key(triples.last(), s, p, o) {
            assert(r == rp);
        } else {
            assert(r == rp.push(triples.last()));
            assert(triples.contains(triples.last())) by {
                assert(triples[triples.len() - 1] == triples.last());
            }
            if triples_unique(triples) {
                assert(triples_unique(prefix));
                assert forall|i: int, j: int| 0 <= i < j < r.len() implies !triple_has_key(
                    r[i],
                    r[j].subject@,
                    r[j].predicate@,
                    r[j].object@,
                ) by {
                    if j < rp.len() {
                        assert(r[i] == rp[i] && r[j] == rp[j]);
                    } else {
                        assert(r[j] == triples.last());
                        assert(r[i] == rp[i]);
                        assert(prefix.contains(rp[i]));
                        let k = choose|k: int| 0 <= k < prefix.len() && prefix[k] == rp[i];
                        assert(triples[k] == rp[i]);
                        assert(!triple_has_key(
                            triples[k],
                            triples[triples.len() - 1].subject@,
                            triples[triples.len() - 1].predicate@,
                            triples[triples.len() - 1].object@,
                        ));
                    }
                }
            }
        }
    }
    let r = triples_without(triples, s, p, o);
    if triples_unique(triples) {
        assert forall|t: KnowledgeTriple| triple_has_key(t, s, p, o) implies triples_unique(
            #[trigger] r.push(t),
        ) by {
            let rp = r.push(t);
            assert forall|i: int, j: int| 0 <= i < j < rp.len() implies !triple_has_key(
                rp[i],
                rp[j].subject@,
                rp[j].predicate@,
                rp[j].object@,
            ) by {
                if j < r.len() {
                    assert(rp[i] == r[i] && rp[j] == r[j]);
                } else {
                    assert(rp[j] == t);
                    assert(rp[i] == r[i]);
                }
            }
        }
    }
}

/// Upserting the same node twice leaves exactly what one upsert leaves:
/// the second write overwrites, it does not duplicate, and the store's
/// size is the same after the second write as after the first.
pub proof fn lemma_upsert_idempotent(nodes: Seq<KnowledgeNode>, n: KnowledgeNode)
    ensures
        upserted_nodes(upserted_nodes(nodes, n), n) == upserted_nodes(nodes, n),
        upserted_nodes(upserted_nodes(nodes, n), n).len() == upserted_nodes(nodes, n).len(),
{
    let w = nodes_without(nodes, n.id@);
    let once = upserted_nodes(nodes, n);
    assert(once == w.push(n));
    assert(once.drop_last() =~= w);
    assert(once.last() == n);
    lemma_nodes_without_props(nodes, n.id@);
    lemma_without_absent(w, n.id@);
    assert(nodes_without(once, n.id@) == nodes_without(w, n.id@));
    assert(nodes_without(w, n.id@) == w);
}

/// Writing a second node under the same id overwrites the first: the
/// store after both writes is exactly the store after the second alone,
/// and it is no larger than after the first.
pub proof fn lemma_upsert_overwrites(nodes: Seq<KnowledgeNode>, n1: KnowledgeNode, n2: KnowledgeNode)
    requires
        n1.id@ == n2.id@,
    ensures
        upserted_nodes(upserted_nodes(nodes, n1), n2) == upserted_nodes(nodes, n2),
        upserted_nodes(upserted_nodes(nodes, n1), n2).len() == upserted_nodes(nodes, n1).len(),
{
    let id = n1.id@;
    let w = nodes_without(nodes, id);
    let once = upserted_nodes(nodes, n1);
    assert(once == w.push(n1));
    assert(once.drop_last() =~= w);
    assert(once.last() == n1);
    lemma_nodes_without_props(nodes, id);
    lemma_without_absent(w, id);
    assert(nodes_without(once, id) == nodes_without(w, id));
    assert(nodes_without(w, id) == w);
}

/// Removing an id from a sequence that holds no node under it changes
/// nothing.
proof fn lemma_without_absent(nodes: Seq<KnowledgeNode>, id: Seq<char>)
    requires
        forall|i: int| 0 <= i < nodes.len() ==> #[trigger] nodes[i].id@ != id,
    ensures
        nodes_without(nodes, id) == nodes,
    decreases nodes.len(),
{
    if nodes.len() == 0 {
        assert(nodes_without(nodes, id) =~= nodes);
    } else {
        let prefix = nodes.drop_last();
        assert(forall|i: int| 0 <= i < prefix.len() ==> #[trigger] prefix[i].id@ != id);
        lemma_without_absent(prefix, id);
        assert(nodes.last().id@ != id);
        assert(nodes_without(nodes, id) =~= nodes);
    }
}

} // verus!
