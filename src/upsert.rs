//! The writes that persist one file, in the order the graph store must run
//! them inside the file's transaction, and a model of what they do to the
//! store.
use vstd::prelude::*;
use vstd::map::*;
use crate::llm::{ExtractionResult, JsonExtractedEntity};
use crate::models::{ChunkNode, DocumentNode, FileNode};
use crate::reconcile::{
    all_entity_pairs, all_relation_triples, reconcile_entities, reconcile_file_entities,
    reconcile_file_relations, reconcile_relations, EntityPair, Triple,
};

verus! {

/// One upsert statement of a file's transaction.
#[derive(Debug)]
pub enum GraphWrite {
    /// Create or update the `:File` node with these properties.
    UpsertFile { file: FileNode },
    /// Create or update the `:Document` node and link it from its file.
    UpsertDocument { doc: DocumentNode, file_id: String },
    /// Create or update the `:Chunk` node and link it from its document.
    UpsertChunk { chunk: ChunkNode },
    /// Link a chunk to the one that follows it.
    LinkNextChunk { prev_id: String, next_id: String },
    /// Create the `:Entity` node unless one with this id exists.
    UpsertEntity { id: String, label: String },
    /// Record that a chunk mentions an entity.
    LinkMention { chunk_id: String, entity_id: String },
    /// Record a relation between two entities.
    LinkRelation { subject: String, predicate: String, object: String },
}

/// The writes of one file, with the number of distinct entities and
/// relations among them.
#[derive(Debug)]
pub struct UpsertPlan {
    pub writes: Vec<GraphWrite>,
    pub entities_count: usize,
    pub relations_count: usize,
}

/// Writes for the chunks of a document, in index order: each chunk, then
/// the link from the chunk before it.
pub open spec fn chunk_section(cs: Seq<ChunkNode>) -> Seq<GraphWrite>
    decreases cs.len(),
{
    if cs.len() == 0 {
        seq![]
    } else if cs.len() == 1 {
        seq![GraphWrite::UpsertChunk { chunk: cs[0] }]
    } else {
        chunk_section(cs.drop_last()) + seq![
            GraphWrite::UpsertChunk { chunk: cs.last() },
            GraphWrite::LinkNextChunk { prev_id: cs[cs.len() - 2].id, next_id: cs.last().id },
        ]
    }
}

/// Every (chunk id, entity id) mention, in extraction order.
pub open spec fn mention_pairs(exs: Seq<(String, ExtractionResult)>) -> Seq<(Seq<char>, Seq<char>)>
    decreases exs.len(),
{
    if exs.len() == 0 {
        seq![]
    } else {
        mention_pairs(exs.drop_last()) + exs.last().1.entities@.map_values(
            |e: JsonExtractedEntity| (exs.last().0@, e.id@),
        )
    }
}

pub open spec fn entity_write(w: GraphWrite) -> Option<EntityPair> {
    match w {
        GraphWrite::UpsertEntity { id, label } => Some((id@, label@)),
        _ => None,
    }
}

pub open spec fn mention_write(w: GraphWrite) -> Option<(Seq<char>, Seq<char>)> {
    match w {
        GraphWrite::LinkMention { chunk_id, entity_id } => Some((chunk_id@, entity_id@)),
        _ => None,
    }
}

pub open spec fn relation_write(w: GraphWrite) -> Option<Triple> {
    match w {
        GraphWrite::LinkRelation { subject, predicate, object } => Some(
            (subject@, predicate@, object@),
        ),
        _ => None,
    }
}

/// The writes for a file: file, document, chunks with their chain, the
/// file's distinct entities, every mention, then the distinct relations.
pub open spec fn is_file_plan(
    ws: Seq<GraphWrite>,
    file: FileNode,
    doc: DocumentNode,
    chunks: Seq<ChunkNode>,
    exs: Seq<(String, ExtractionResult)>,
) -> bool {
    let c: int = 2 + chunk_section(chunks).len() as int;
    let ents = reconcile_entities(all_entity_pairs(exs));
    let ms = mention_pairs(exs);
    let rels = reconcile_relations(all_relation_triples(exs));
    let e: int = c + ents.len() as int;
    let m: int = e + ms.len() as int;
    &&& ws.len() == m + rels.len()
    &&& ws[0] == GraphWrite::UpsertFile { file }
    &&& ws[1] == GraphWrite::UpsertDocument { doc, file_id: file.id }
    &&& ws.subrange(2, c) == chunk_section(chunks)
    &&& forall|k: int| 0 <= k < ents.len() ==> entity_write(#[trigger] ws[c + k]) == Some(ents[k])
    &&& forall|k: int| 0 <= k < ms.len() ==> mention_write(#[trigger] ws[e + k]) == Some(ms[k])
    &&& forall|k: int| 0 <= k < rels.len() ==> relation_write(#[trigger] ws[m + k]) == Some(rels[k])
}

fn copy_chunk(c: &ChunkNode) -> (r: ChunkNode)
    ensures
        r == *c,
{
    ChunkNode {
        id: c.id.clone(),
        document_id: c.document_id.clone(),
        index: c.index,
        text: c.text.clone(),
        tokens: c.tokens,
    }
}

/// The writes that persist one file, its document, its chunks and what was
/// extracted from them, in the order the transaction runs them.
pub fn plan_graph_writes(
    file: FileNode,
    doc: DocumentNode,
    chunks: &Vec<ChunkNode>,
    extractions: &Vec<(String, ExtractionResult)>,
) -> (r: UpsertPlan)
    ensures
        is_file_plan(r.writes@, file, doc, chunks@, extractions@),
        r.entities_count == reconcile_entities(all_entity_pairs(extractions@)).len(),
        r.relations_count == reconcile_relations(all_relation_triples(extractions@)).len(),
{
    let ghost file0 = file;
    let ghost doc0 = doc;
    let mut writes: Vec<GraphWrite> = Vec::new();
    let file_id = file.id.clone();
    writes.push(GraphWrite::UpsertFile { file });
    writes.push(GraphWrite::UpsertDocument { doc, file_id });
    let ghost head = writes@;
    let mut i: usize = 0;
    while i < chunks.len()
        invariant
            i <= chunks.len(),
            head.len() == 2,
            writes@ == head + chunk_section(chunks@.subrange(0, i as int)),
        decreases chunks.len() - i,
    {
        let ghost sub = chunks@.subrange(0, i + 1);
        proof {
            assert(sub.drop_last() =~= chunks@.subrange(0, i as int));
        }
        writes.push(GraphWrite::UpsertChunk { chunk: copy_chunk(&chunks[i]) });
        if i > 0 {
            writes.push(
                GraphWrite::LinkNextChunk { prev_id: chunks[i - 1].id.clone(), next_id: chunks[i].id.clone() },
            );
            proof {
                assert(sub[sub.len() - 2] == chunks@[i - 1]);
                assert(writes@ =~= head + chunk_section(sub));
            }
        } else {
            proof {
                assert(writes@ =~= head + chunk_section(sub));
            }
        }
        i = i + 1;
    }
    proof {
        assert(chunks@.subrange(0, chunks.len() as int) =~= chunks@);
        assert(writes@.subrange(2, writes@.len() as int) =~= chunk_section(chunks@));
    }
    let c: usize = writes.len();
    let ghost pre_c = writes@;
    let ents = reconcile_file_entities(extractions);
    let ghost ev = reconcile_entities(all_entity_pairs(extractions@));
    proof {
        assert(ents@.len() == ev.len());
        assert forall|m: int| 0 <= m < ents@.len() implies (#[trigger] ents@[m].id@, ents@[m].label@) == ev[m] by {
            assert(ev[m] == crate::reconcile::entity_view(ents@)[m]);
        }
    }
    let mut k: usize = 0;
    while k < ents.len()
        invariant
            k <= ents.len(),
            c + k == writes.len(),
            c == pre_c.len(),
            ents@.len() == ev.len(),
            forall|m: int| 0 <= m < ents@.len() ==> (#[trigger] ents@[m].id@, ents@[m].label@) == ev[m],
            writes@.subrange(0, c as int) == pre_c,
            forall|m: int| 0 <= m < k ==> entity_write(#[trigger] writes@[c + m]) == Some(ev[m]),
        decreases ents.len() - k,
    {
        let ghost before = writes@;
        writes.push(GraphWrite::UpsertEntity { id: ents[k].id.clone(), label: ents[k].label.clone() });
        proof {
            assert(writes@.subrange(0, c as int) =~= before.subrange(0, c as int));
            assert(entity_write(writes@[c + k]) == Some(ev[k as int]));
            assert forall|m: int| 0 <= m < k + 1 implies entity_write(#[trigger] writes@[c + m]) == Some(ev[m]) by {
                if m < k {
                    assert(writes@[c + m] == before[c + m]);
                }
            }
        }
        k = k + 1;
    }
    let e: usize = writes.len();
    let ghost pre_e = writes@;
    let ghost ms = mention_pairs(extractions@);
    let mut i: usize = 0;
    while i < extractions.len()
        invariant
            i <= extractions.len(),
            e == pre_e.len(),
            writes.len() == e + mention_pairs(extractions@.subrange(0, i as int)).len(),
            writes@.subrange(0, e as int) == pre_e,
            forall|m: int|
                0 <= m < mention_pairs(extractions@.subrange(0, i as int)).len() ==> mention_write(
                    #[trigger] writes@[e + m],
                ) == Some(mention_pairs(extractions@.subrange(0, i as int))[m]),
        decreases extractions.len() - i,
    {
        let chunk_id = &extractions[i].0;
        let ents_i = &extractions[i].1.entities;
        let ghost base = mention_pairs(extractions@.subrange(0, i as int));
        let ghost add = ents_i@.map_values(|x: JsonExtractedEntity| (chunk_id@, x.id@));
        proof {
            let sub = extractions@.subrange(0, i + 1);
            assert(sub.drop_last() =~= extractions@.subrange(0, i as int));
            assert(mention_pairs(sub) == base + add);
        }
        let mut j: usize = 0;
        while j < ents_i.len()
            invariant
                i < extractions.len(),
                j <= ents_i.len(),
                ents_i == &extractions@[i as int].1.entities,
                chunk_id == &extractions@[i as int].0,
                add == ents_i@.map_values(|x: JsonExtractedEntity| (chunk_id@, x.id@)),
                e == pre_e.len(),
                writes.len() == e + base.len() + j,
                writes@.subrange(0, e as int) == pre_e,
                forall|m: int| 0 <= m < base.len() + j ==> mention_write(#[trigger] writes@[e + m])
                    == Some((base + add)[m]),
            decreases ents_i.len() - j,
        {
            let ghost before = writes@;
            writes.push(GraphWrite::LinkMention { chunk_id: chunk_id.clone(), entity_id: ents_i[j].id.clone() });
            proof {
                assert(writes@.subrange(0, e as int) =~= before.subrange(0, e as int));
                assert((base + add)[base.len() + j] == add[j as int]);
                assert forall|m: int| 0 <= m < base.len() + j + 1 implies mention_write(#[trigger] writes@[e + m])
                    == Some((base + add)[m]) by {
                    if m < base.len() + j {
                        assert(writes@[e + m] == before[e + m]);
                    }
                }
            }
            j = j + 1;
        }
        i = i + 1;
    }
    proof {
        assert(extractions@.subrange(0, extractions.len() as int) =~= extractions@);
    }
    let m: usize = writes.len();
    let ghost pre_m = writes@;
    let rels = reconcile_file_relations(extractions);
    let ghost rv = reconcile_relations(all_relation_triples(extractions@));
    proof {
        assert(rels@.len() == rv.len());
        assert forall|q: int| 0 <= q < rels@.len() implies (#[trigger] rels@[q].0@, rels@[q].1@, rels@[q].2@) == rv[q] by {
            assert(rv[q] == crate::reconcile::triple_view(rels@)[q]);
        }
    }
    let mut k: usize = 0;
    while k < rels.len()
        invariant
            k <= rels.len(),
            m + k == writes.len(),
            m == pre_m.len(),
            rels@.len() == rv.len(),
            forall|q: int| 0 <= q < rels@.len() ==> (#[trigger] rels@[q].0@, rels@[q].1@, rels@[q].2@) == rv[q],
            writes@.subrange(0, m as int) == pre_m,
            forall|q: int| 0 <= q < k ==> relation_write(#[trigger] writes@[m + q]) == Some(rv[q]),
        decreases rels.len() - k,
    {
        let ghost before = writes@;
        writes.push(
            GraphWrite::LinkRelation {
                subject: rels[k].0.clone(),
                predicate: rels[k].1.clone(),
                object: rels[k].2.clone(),
            },
        );
        proof {
            assert(writes@.subrange(0, m as int) =~= before.subrange(0, m as int));
            assert(relation_write(writes@[m + k]) == Some(rv[k as int]));
            assert forall|q: int| 0 <= q < k + 1 implies relation_write(#[trigger] writes@[m + q]) == Some(rv[q]) by {
                if q < k {
                    assert(writes@[m + q] == before[m + q]);
                }
            }
        }
        k = k + 1;
    }
    proof {
        let ws = writes@;
        assert(ws.subrange(0, m as int).subrange(0, e as int) =~= ws.subrange(0, e as int));
        assert(ws.subrange(0, e as int).subrange(0, c as int) =~= ws.subrange(0, c as int));
        assert(ws[0] == pre_c[0]);
        assert(ws[1] == pre_c[1]);
        assert(ws.subrange(2, c as int) =~= pre_c.subrange(2, c as int));
        assert forall|q: int| 0 <= q < ev.len() implies entity_write(#[trigger] ws[c + q]) == Some(ev[q]) by {
            assert(ws[c + q] == pre_e[c + q]);
        }
        assert forall|q: int| 0 <= q < ms.len() implies mention_write(#[trigger] ws[e + q]) == Some(ms[q]) by {
            assert(ws[e + q] == pre_m[e + q]);
        }
    }
    UpsertPlan { writes, entities_count: ents.len(), relations_count: rels.len() }
}

/// An edge of the graph store, by the ids of its ends.
pub enum EdgeKey {
    HasDocument(Seq<char>, Seq<char>),
    HasChunk(Seq<char>, Seq<char>),
    NextChunk(Seq<char>, Seq<char>),
    Mentions(Seq<char>, Seq<char>),
    RelatedTo(Seq<char>, Seq<char>, Seq<char>),
}

/// The state of the graph store: nodes by id and the set of edges. An
/// entity maps to its label.
pub struct GraphModel {
    pub files: Map<Seq<char>, FileNode>,
    pub documents: Map<Seq<char>, DocumentNode>,
    pub chunks: Map<Seq<char>, ChunkNode>,
    pub entities: Map<Seq<char>, Seq<char>>,
    pub edges: Set<EdgeKey>,
}

/// What one write does to the store: nodes are merged by id (file,
/// document and chunk properties are overwritten, an entity keeps the label
/// it was created with) and edges are merged by their ends.
pub open spec fn apply_write(g: GraphModel, w: GraphWrite) -> GraphModel {
    match w {
        GraphWrite::UpsertFile { file } => GraphModel { files: g.files.insert(file.id@, file), ..g },
        GraphWrite::UpsertDocument { doc, file_id } => GraphModel {
            documents: g.documents.insert(doc.id@, doc),
            edges: g.edges.insert(EdgeKey::HasDocument(file_id@, doc.id@)),
            ..g
        },
        GraphWrite::UpsertChunk { chunk } => GraphModel {
            chunks: g.chunks.insert(chunk.id@, chunk),
            edges: g.edges.insert(EdgeKey::HasChunk(chunk.document_id@, chunk.id@)),
            ..g
        },
        GraphWrite::LinkNextChunk { prev_id, next_id } => GraphModel {
            edges: g.edges.insert(EdgeKey::NextChunk(prev_id@, next_id@)),
            ..g
        },
        GraphWrite::UpsertEntity { id, label } => if g.entities.contains_key(id@) {
            g
        } else {
            GraphModel { entities: g.entities.insert(id@, label@), ..g }
        },
        GraphWrite::LinkMention { chunk_id, entity_id } => GraphModel {
            edges: g.edges.insert(EdgeKey::Mentions(chunk_id@, entity_id@)),
            ..g
        },
        GraphWrite::LinkRelation { subject, predicate, object } => GraphModel {
            edges: g.edges.insert(EdgeKey::RelatedTo(subject@, predicate@, object@)),
            ..g
        },
    }
}

/// The store after running `ws` in order.
pub open spec fn apply_writes(g: GraphModel, ws: Seq<GraphWrite>) -> GraphModel
    decreases ws.len(),
{
    if ws.len() == 0 {
        g
    } else {
        apply_write(apply_writes(g, ws.drop_last()), ws.last())
    }
}

/// File properties set by `ws`, the last write of each id winning.
pub open spec fn file_writes(ws: Seq<GraphWrite>) -> Map<Seq<char>, FileNode>
    decreases ws.len(),
{
    if ws.len() == 0 {
        map![]
    } else {
        match ws.last() {
            GraphWrite::UpsertFile { file } => file_writes(ws.drop_last()).insert(file.id@, file),
            _ => file_writes(ws.drop_last()),
        }
    }
}

pub open spec fn document_writes(ws: Seq<GraphWrite>) -> Map<Seq<char>, DocumentNode>
    decreases ws.len(),
{
    if ws.len() == 0 {
        map![]
    } else {
        match ws.last() {
            GraphWrite::UpsertDocument { doc, file_id } => document_writes(ws.drop_last()).insert(doc.id@, doc),
            _ => document_writes(ws.drop_last()),
        }
    }
}

pub open spec fn chunk_writes(ws: Seq<GraphWrite>) -> Map<Seq<char>, ChunkNode>
    decreases ws.len(),
{
    if ws.len() == 0 {
        map![]
    } else {
        match ws.last() {
            GraphWrite::UpsertChunk { chunk } => chunk_writes(ws.drop_last()).insert(chunk.id@, chunk),
            _ => chunk_writes(ws.drop_last()),
        }
    }
}

/// Entity labels set by `ws`, the first write of each id winning.
pub open spec fn entity_writes(ws: Seq<GraphWrite>) -> Map<Seq<char>, Seq<char>>
    decreases ws.len(),
{
    if ws.len() == 0 {
        map![]
    } else {
        let m = entity_writes(ws.drop_last());
        match ws.last() {
            GraphWrite::UpsertEntity { id, label } => if m.contains_key(id@) {
                m
            } else {
                m.insert(id@, label@)
            },
            _ => m,
        }
    }
}

/// The edge a write merges, if any.
pub open spec fn write_edge(w: GraphWrite) -> Option<EdgeKey> {
    match w {
        GraphWrite::UpsertFile { file } => None,
        GraphWrite::UpsertDocument { doc, file_id } => Some(EdgeKey::HasDocument(file_id@, doc.id@)),
        GraphWrite::UpsertChunk { chunk } => Some(EdgeKey::HasChunk(chunk.document_id@, chunk.id@)),
        GraphWrite::LinkNextChunk { prev_id, next_id } => Some(EdgeKey::NextChunk(prev_id@, next_id@)),
        GraphWrite::UpsertEntity { id, label } => None,
        GraphWrite::LinkMention { chunk_id, entity_id } => Some(EdgeKey::Mentions(chunk_id@, entity_id@)),
        GraphWrite::LinkRelation { subject, predicate, object } => Some(
            EdgeKey::RelatedTo(subject@, predicate@, object@),
        ),
    }
}

pub open spec fn edge_writes(ws: Seq<GraphWrite>) -> Set<EdgeKey>
    decreases ws.len(),
{
    if ws.len() == 0 {
        Set::empty()
    } else {
        match write_edge(ws.last()) {
            Some(k) => edge_writes(ws.drop_last()).insert(k),
            None => edge_writes(ws.drop_last()),
        }
    }
}

/// What a run of writes does, component by component.
pub proof fn lemma_apply_writes(g: GraphModel, ws: Seq<GraphWrite>)
    ensures
        apply_writes(g, ws).files == g.files.union_prefer_right(file_writes(ws)),
        apply_writes(g, ws).documents == g.documents.union_prefer_right(document_writes(ws)),
        apply_writes(g, ws).chunks == g.chunks.union_prefer_right(chunk_writes(ws)),
        apply_writes(g, ws).entities == entity_writes(ws).union_prefer_right(g.entities),
        apply_writes(g, ws).edges == g.edges.union(edge_writes(ws)),
    decreases ws.len(),
{
    if ws.len() == 0 {
        assert(g.files.union_prefer_right(map![]) =~= g.files);
        assert(g.documents.union_prefer_right(map![]) =~= g.documents);
        assert(g.chunks.union_prefer_right(map![]) =~= g.chunks);
        assert(Map::<Seq<char>, Seq<char>>::empty().union_prefer_right(g.entities) =~= g.entities);
        assert(g.edges.union(Set::empty()) =~= g.edges);
    } else {
        let d = ws.drop_last();
        lemma_apply_writes(g, d);
        let h = apply_writes(g, d);
        let fw = file_writes(d);
        let dw = document_writes(d);
        let cw = chunk_writes(d);
        let ew = entity_writes(d);
        let xw = edge_writes(d);
        match ws.last() {
            GraphWrite::UpsertFile { file } => {
                assert(h.files.insert(file.id@, file) =~= g.files.union_prefer_right(fw.insert(file.id@, file)));
            },
            GraphWrite::UpsertDocument { doc, file_id } => {
                assert(h.documents.insert(doc.id@, doc) =~= g.documents.union_prefer_right(dw.insert(doc.id@, doc)));
                assert(h.edges.insert(EdgeKey::HasDocument(file_id@, doc.id@)) =~= g.edges.union(
                    xw.insert(EdgeKey::HasDocument(file_id@, doc.id@))));
            },
            GraphWrite::UpsertChunk { chunk } => {
                assert(h.chunks.insert(chunk.id@, chunk) =~= g.chunks.union_prefer_right(cw.insert(chunk.id@, chunk)));
                assert(h.edges.insert(EdgeKey::HasChunk(chunk.document_id@, chunk.id@)) =~= g.edges.union(
                    xw.insert(EdgeKey::HasChunk(chunk.document_id@, chunk.id@))));
            },
            GraphWrite::LinkNextChunk { prev_id, next_id } => {
                assert(h.edges.insert(EdgeKey::NextChunk(prev_id@, next_id@)) =~= g.edges.union(
                    xw.insert(EdgeKey::NextChunk(prev_id@, next_id@))));
            },
            GraphWrite::UpsertEntity { id, label } => {
                if !ew.contains_key(id@) && !g.entities.contains_key(id@) {
                    assert(h.entities.insert(id@, label@) =~= ew.insert(id@, label@).union_prefer_right(g.entities));
                } else if !ew.contains_key(id@) {
                    assert(h.entities =~= ew.insert(id@, label@).union_prefer_right(g.entities));
                }
            },
            GraphWrite::LinkMention { chunk_id, entity_id } => {
                assert(h.edges.insert(EdgeKey::Mentions(chunk_id@, entity_id@)) =~= g.edges.union(
                    xw.insert(EdgeKey::Mentions(chunk_id@, entity_id@))));
            },
            GraphWrite::LinkRelation { subject, predicate, object } => {
                assert(h.edges.insert(EdgeKey::RelatedTo(subject@, predicate@, object@)) =~= g.edges.union(
                    xw.insert(EdgeKey::RelatedTo(subject@, predicate@, object@))));
            },
        }
    }
}

/// Upserts are idempotent: running the same writes a second time leaves
/// the store as the first run left it, so a file ingested again with the
/// same records, or knowledge extracted again, creates no duplicate node
/// or edge.
pub proof fn lemma_upsert_idempotent(g: GraphModel, ws: Seq<GraphWrite>)
    ensures
        apply_writes(apply_writes(g, ws), ws) == apply_writes(g, ws),
{
    let h = apply_writes(g, ws);
    lemma_apply_writes(g, ws);
    lemma_apply_writes(h, ws);
    let h2 = apply_writes(h, ws);
    assert(h2.files =~= h.files);
    assert(h2.documents =~= h.documents);
    assert(h2.chunks =~= h.chunks);
    assert(h2.entities =~= h.entities);
    assert(h2.edges =~= h.edges);
}

/// The (previous, next) chunk ids of the chain links among `ws`, in order.
pub open spec fn next_links(ws: Seq<GraphWrite>) -> Seq<(Seq<char>, Seq<char>)>
    decreases ws.len(),
{
    if ws.len() == 0 {
        seq![]
    } else {
        match ws.last() {
            GraphWrite::LinkNextChunk { prev_id, next_id } => next_links(ws.drop_last()).push(
                (prev_id@, next_id@),
            ),
            _ => next_links(ws.drop_last()),
        }
    }
}

/// The links of a single chain through `cs`: each chunk to the one after it.
pub open spec fn chain_links(cs: Seq<ChunkNode>) -> Seq<(Seq<char>, Seq<char>)> {
    Seq::new((if cs.len() == 0 { 0 } else { cs.len() - 1 }) as nat, |i: int| (cs[i].id@, cs[i + 1].id@))
}

proof fn lemma_next_links_concat(a: Seq<GraphWrite>, b: Seq<GraphWrite>)
    ensures
        next_links(a + b) == next_links(a) + next_links(b),
    decreases b.len(),
{
    if b.len() == 0 {
        assert(a + b =~= a);
        assert(next_links(a) + next_links(b) =~= next_links(a));
    } else {
        lemma_next_links_concat(a, b.drop_last());
        assert((a + b).drop_last() =~= a + b.drop_last());
        match b.last() {
            GraphWrite::LinkNextChunk { prev_id, next_id } => {
                assert(next_links(a) + next_links(b.drop_last()).push((prev_id@, next_id@)) =~= (next_links(a)
                    + next_links(b.drop_last())).push((prev_id@, next_id@)));
            },
            _ => {},
        }
    }
}

proof fn lemma_chunk_section_links(cs: Seq<ChunkNode>)
    ensures
        next_links(chunk_section(cs)) == chain_links(cs),
    decreases cs.len(),
{
    if cs.len() == 1 {
        let one = seq![GraphWrite::UpsertChunk { chunk: cs[0] }];
        assert(one.drop_last() =~= Seq::<GraphWrite>::empty());
        assert(next_links(one) == next_links(Seq::<GraphWrite>::empty()));
        assert(chain_links(cs) =~= Seq::<(Seq<char>, Seq<char>)>::empty());
    } else if cs.len() > 1 {
        let d = cs.drop_last();
        lemma_chunk_section_links(d);
        let tail = seq![
            GraphWrite::UpsertChunk { chunk: cs.last() },
            GraphWrite::LinkNextChunk { prev_id: cs[cs.len() - 2].id, next_id: cs.last().id },
        ];
        lemma_next_links_concat(chunk_section(d), tail);
        let one = seq![GraphWrite::UpsertChunk { chunk: cs.last() }];
        assert(tail.drop_last() =~= one);
        assert(one.drop_last() =~= Seq::<GraphWrite>::empty());
        assert(next_links(one) == next_links(Seq::<GraphWrite>::empty()));
        assert(next_links(tail) == next_links(one).push((cs[cs.len() - 2].id@, cs.last().id@)));
        assert(next_links(tail) =~= seq![(cs[cs.len() - 2].id@, cs.last().id@)]);
        assert(chunk_section(cs) == chunk_section(d) + tail);
        assert(chain_links(d).push((cs[cs.len() - 2].id@, cs.last().id@)) =~= chain_links(cs));
    } else {
        assert(chain_links(cs) =~= Seq::<(Seq<char>, Seq<char>)>::empty());
    }
}

proof fn lemma_no_links(ws: Seq<GraphWrite>)
    requires
        forall|k: int| 0 <= k < ws.len() ==> !(#[trigger] ws[k] is LinkNextChunk),
    ensures
        next_links(ws) == Seq::<(Seq<char>, Seq<char>)>::empty(),
    decreases ws.len(),
{
    if ws.len() > 0 {
        let d = ws.drop_last();
        assert forall|k: int| 0 <= k < d.len() implies !(#[trigger] d[k] is LinkNextChunk) by {
            assert(d[k] == ws[k]);
        }
        lemma_no_links(d);
        assert(!(ws[ws.len() - 1] is LinkNextChunk));
    }
}

/// The chunk chain of a file's writes: a document with N chunks gets exactly
/// N-1 next links, from each chunk to the chunk with the following index,
/// and no other.
pub proof fn lemma_chunk_chain(
    ws: Seq<GraphWrite>,
    file: FileNode,
    doc: DocumentNode,
    chunks: Seq<ChunkNode>,
    exs: Seq<(String, ExtractionResult)>,
)
    requires
        is_file_plan(ws, file, doc, chunks, exs),
    ensures
        next_links(ws) == chain_links(chunks),
        next_links(ws).len() == if chunks.len() == 0 { 0 } else { chunks.len() - 1 },
{
    let c: int = 2 + chunk_section(chunks).len() as int;
    let head = ws.subrange(0, 2);
    let mid = ws.subrange(2, c);
    let rest = ws.subrange(c, ws.len() as int);
    assert(ws =~= head + mid + rest);
    lemma_next_links_concat(head + mid, rest);
    lemma_next_links_concat(head, mid);
    lemma_chunk_section_links(chunks);
    assert forall|k: int| 0 <= k < head.len() implies !(#[trigger] head[k] is LinkNextChunk) by {
        assert(head[k] == ws[k]);
    }
    lemma_no_links(head);
    let ents = reconcile_entities(all_entity_pairs(exs));
    let ms = mention_pairs(exs);
    let e: int = c + ents.len() as int;
    let m: int = e + ms.len() as int;
    assert forall|k: int| 0 <= k < rest.len() implies !(#[trigger] rest[k] is LinkNextChunk) by {
        assert(rest[k] == ws[c + k]);
        if k < ents.len() {
            assert(entity_write(ws[c + k]) is Some);
        } else if k < ents.len() + ms.len() {
            assert(mention_write(ws[e + (k - ents.len())]) is Some);
        } else {
            assert(relation_write(ws[m + (k - ents.len() - ms.len())]) is Some);
        }
    }
    lemma_no_links(rest);
    assert(next_links(ws) =~= chain_links(chunks));
}

} // verus!
