//! Reconciliation of the knowledge extracted from the chunks of one file:
//! one entry per entity id (the label seen last wins) and one entry per
//! distinct relation triple.
use vstd::prelude::*;
use crate::llm::{ExtractionResult, JsonExtractedEntity, JsonExtractedRelation};
use crate::models::EntityNode;

verus! {

/// An (id, label) pair.
pub type EntityPair = (Seq<char>, Seq<char>);

/// A (subject, predicate, object) triple.
pub type Triple = (Seq<char>, Seq<char>, Seq<char>);

pub open spec fn entity_pairs(ex: ExtractionResult) -> Seq<EntityPair> {
    ex.entities@.map_values(|e: JsonExtractedEntity| (e.id@, e.label@))
}

pub open spec fn relation_triples(ex: ExtractionResult) -> Seq<Triple> {
    ex.relations@.map_values(|r: JsonExtractedRelation| (r.subject@, r.predicate@, r.object@))
}

/// Every extracted entity of every chunk, in order.
pub open spec fn all_entity_pairs(exs: Seq<(String, ExtractionResult)>) -> Seq<EntityPair>
    decreases exs.len(),
{
    if exs.len() == 0 {
        seq![]
    } else {
        all_entity_pairs(exs.drop_last()) + entity_pairs(exs.last().1)
    }
}

/// Every extracted relation of every chunk, in order.
pub open spec fn all_relation_triples(exs: Seq<(String, ExtractionResult)>) -> Seq<Triple>
    decreases exs.len(),
{
    if exs.len() == 0 {
        seq![]
    } else {
        all_relation_triples(exs.drop_last()) + relation_triples(exs.last().1)
    }
}

pub open spec fn has_id(u: Seq<EntityPair>, id: Seq<char>) -> bool {
    exists|k: int| 0 <= k < u.len() && u[k].0 == id
}

/// One entry per id, in order of first appearance, holding the label of
/// the id's last appearance.
pub open spec fn reconcile_entities(ps: Seq<EntityPair>) -> Seq<EntityPair>
    decreases ps.len(),
{
    if ps.len() == 0 {
        seq![]
    } else {
        let u = reconcile_entities(ps.drop_last());
        let p = ps.last();
        if has_id(u, p.0) {
            u.map_values(|e: EntityPair| if e.0 == p.0 { p } else { e })
        } else {
            u.push(p)
        }
    }
}

/// One entry per distinct triple, in order of first appearance.
pub open spec fn reconcile_relations(ts: Seq<Triple>) -> Seq<Triple>
    decreases ts.len(),
{
    if ts.len() == 0 {
        seq![]
    } else {
        let u = reconcile_relations(ts.drop_last());
        if u.contains(ts.last()) {
            u
        } else {
            u.push(ts.last())
        }
    }
}

pub open spec fn ids_distinct(u: Seq<EntityPair>) -> bool {
    forall|a: int, b: int| 0 <= a < b < u.len() ==> u[a].0 != u[b].0
}

/// The label of the last appearance of `id` in `ps`.
pub open spec fn last_label(ps: Seq<EntityPair>, id: Seq<char>) -> Seq<char>
    decreases ps.len(),
{
    if ps.len() == 0 {
        seq![]
    } else if ps.last().0 == id {
        ps.last().1
    } else {
        last_label(ps.drop_last(), id)
    }
}

pub open spec fn entity_view(u: Seq<EntityNode>) -> Seq<EntityPair> {
    u.map_values(|e: EntityNode| (e.id@, e.label@))
}

pub open spec fn triple_view(u: Seq<(String, String, String)>) -> Seq<Triple> {
    u.map_values(|t: (String, String, String)| (t.0@, t.1@, t.2@))
}

/// Entity reconciliation keeps one node per id: the ids are distinct,
/// exactly the extracted ids appear, and each carries the label that was
/// extracted last for it.
pub proof fn lemma_reconciled_entities(ps: Seq<EntityPair>)
    ensures
        ids_distinct(reconcile_entities(ps)),
        forall|id: Seq<char>| has_id(reconcile_entities(ps), id) <==> has_id(ps, id),
        forall|k: int|
            0 <= k < reconcile_entities(ps).len() ==> #[trigger] reconcile_entities(ps)[k].1
                == last_label(ps, reconcile_entities(ps)[k].0),
    decreases ps.len(),
{
    if ps.len() > 0 {
        let d = ps.drop_last();
        let u = reconcile_entities(d);
        let p = ps.last();
        lemma_reconciled_entities(d);
        let r = reconcile_entities(ps);
        assert forall|id: Seq<char>| has_id(ps, id) <==> (has_id(d, id) || id == p.0) by {
            if has_id(ps, id) {
                let k = choose|k: int| 0 <= k < ps.len() && ps[k].0 == id;
                if k < d.len() {
                    assert(d[k] == ps[k]);
                }
            }
            if has_id(d, id) {
                let k = choose|k: int| 0 <= k < d.len() && d[k].0 == id;
                assert(ps[k] == d[k]);
            }
            if id == p.0 {
                assert(ps[ps.len() - 1].0 == id);
            }
        }
        if has_id(u, p.0) {
            assert forall|id: Seq<char>| has_id(r, id) <==> has_id(ps, id) by {
                if has_id(r, id) {
                    let k = choose|k: int| 0 <= k < r.len() && r[k].0 == id;
                    assert(r[k].0 == u[k].0);
                }
                if has_id(u, id) {
                    let k = choose|k: int| 0 <= k < u.len() && u[k].0 == id;
                    assert(r[k].0 == u[k].0);
                }
            }
            assert forall|k: int| 0 <= k < r.len() implies #[trigger] r[k].1 == last_label(ps, r[k].0) by {
                assert(u[k] == reconcile_entities(d)[k]);
            }
        } else {
            assert forall|id: Seq<char>| has_id(r, id) <==> has_id(ps, id) by {
                if has_id(r, id) {
                    let k = choose|k: int| 0 <= k < r.len() && r[k].0 == id;
                    if k < u.len() {
                        assert(r[k] == u[k]);
                    }
                }
                if has_id(u, id) {
                    let k = choose|k: int| 0 <= k < u.len() && u[k].0 == id;
                    assert(r[k] == u[k]);
                }
                if id == p.0 {
                    assert(r[u.len() as int].0 == id);
                }
            }
            assert forall|k: int| 0 <= k < r.len() implies #[trigger] r[k].1 == last_label(ps, r[k].0) by {
                if k < u.len() {
                    assert(r[k] == u[k]);
                    assert(u[k] == reconcile_entities(d)[k]);
                    assert(u[k].0 != p.0);
                }
            }
        }
    }
}

/// Relation reconciliation keeps each distinct triple exactly once.
pub proof fn lemma_reconciled_relations(ts: Seq<Triple>)
    ensures
        reconcile_relations(ts).no_duplicates(),
        forall|t: Triple| reconcile_relations(ts).contains(t) <==> ts.contains(t),
    decreases ts.len(),
{
    if ts.len() > 0 {
        let d = ts.drop_last();
        lemma_reconciled_relations(d);
        let u = reconcile_relations(d);
        assert forall|t: Triple| ts.contains(t) <==> (d.contains(t) || t == ts.last()) by {
            if ts.contains(t) {
                let k = choose|k: int| 0 <= k < ts.len() && ts[k] == t;
                if k < d.len() {
                    assert(d[k] == ts[k]);
                }
            }
            if d.contains(t) {
                let k = choose|k: int| 0 <= k < d.len() && d[k] == t;
                assert(ts[k] == d[k]);
            }
            if t == ts.last() {
                assert(ts[ts.len() - 1] == t);
            }
        }
        if !u.contains(ts.last()) {
            let r = u.push(ts.last());
            assert forall|t: Triple| r.contains(t) <==> (u.contains(t) || t == ts.last()) by {
                if r.contains(t) {
                    let k = choose|k: int| 0 <= k < r.len() && r[k] == t;
                    if k < u.len() {
                        assert(r[k] == u[k]);
                    }
                }
                if u.contains(t) {
                    let k = choose|k: int| 0 <= k < u.len() && u[k] == t;
                    assert(r[k] == u[k]);
                }
                if t == ts.last() {
                    assert(r[u.len() as int] == t);
                }
            }
        }
    }
}

fn find_entity(u: &Vec<EntityNode>, id: &String) -> (r: Option<usize>)
    ensures
        match r {
            Some(k) => k < u.len() && u@[k as int].id@ == id@,
            None => !has_id(entity_view(u@), id@),
        },
{
    let mut k: usize = 0;
    while k < u.len()
        invariant
            k <= u.len(),
            forall|m: int| 0 <= m < k ==> u@[m].id@ != id@,
        decreases u.len() - k,
    {
        if u[k].id == *id {
            return Some(k);
        }
        k = k + 1;
    }
    proof {
        if has_id(entity_view(u@), id@) {
            let m = choose|m: int| 0 <= m < u.len() && entity_view(u@)[m].0 == id@;
            assert(u@[m].id@ == id@);
        }
    }
    None
}

/// The distinct entities of a file's extractions: one node per id, in order
/// of first appearance, with the label extracted last for that id.
pub fn reconcile_file_entities(exs: &Vec<(String, ExtractionResult)>) -> (r: Vec<EntityNode>)
    ensures
        entity_view(r@) == reconcile_entities(all_entity_pairs(exs@)),
{
    let mut u: Vec<EntityNode> = Vec::new();
    let mut i: usize = 0;
    while i < exs.len()
        invariant
            i <= exs.len(),
            entity_view(u@) == reconcile_entities(all_entity_pairs(exs@.subrange(0, i as int))),
        decreases exs.len() - i,
    {
        let ents = &exs[i].1.entities;
        let ghost before = all_entity_pairs(exs@.subrange(0, i as int));
        let mut j: usize = 0;
        while j < ents.len()
            invariant
                i < exs.len(),
                ents == &exs@[i as int].1.entities,
                before == all_entity_pairs(exs@.subrange(0, i as int)),
                j <= ents.len(),
                entity_view(u@) == reconcile_entities(
                    before + entity_pairs(exs@[i as int].1).subrange(0, j as int),
                ),
            decreases ents.len() - j,
        {
            let e = &ents[j];
            let ghost ps = before + entity_pairs(exs@[i as int].1).subrange(0, j as int);
            let ghost ps2 = before + entity_pairs(exs@[i as int].1).subrange(0, j + 1);
            let ghost p = (e.id@, e.label@);
            proof {
                assert(ps2.drop_last() =~= ps);
                assert(ps2.last() == p);
                lemma_reconciled_entities(ps);
            }
            match find_entity(&u, &e.id) {
                Some(k) => {
                    let ghost old_u = u@;
                    u[k] = EntityNode { id: e.id.clone(), label: e.label.clone() };
                    proof {
                        assert(has_id(entity_view(old_u), p.0)) by {
                            assert(entity_view(old_u)[k as int].0 == p.0);
                        }
                        let ov = entity_view(old_u);
                        assert(ids_distinct(ov));
                        assert forall|m: int| 0 <= m < ov.len() && m != k implies ov[m].0 != p.0 by {
                            if m < k {
                                assert(ov[m].0 != ov[k as int].0);
                            } else {
                                assert(ov[k as int].0 != ov[m].0);
                            }
                        }
                        assert(entity_view(u@) =~= entity_view(old_u).map_values(
                            |x: EntityPair| if x.0 == p.0 { p } else { x },
                        ));
                    }
                },
                None => {
                    u.push(EntityNode { id: e.id.clone(), label: e.label.clone() });
                    proof {
                        assert(entity_view(u@) =~= reconcile_entities(ps).push(p));
                    }
                },
            }
            j = j + 1;
        }
        proof {
            assert(exs@.subrange(0, i + 1).drop_last() =~= exs@.subrange(0, i as int));
            assert(entity_pairs(exs@[i as int].1).subrange(0, ents.len() as int) =~= entity_pairs(
                exs@[i as int].1,
            ));
        }
        i = i + 1;
    }
    proof {
        assert(exs@.subrange(0, exs.len() as int) =~= exs@);
    }
    u
}

fn contains_triple(u: &Vec<(String, String, String)>, t: &JsonExtractedRelation) -> (r: bool)
    ensures
        r == triple_view(u@).contains((t.subject@, t.predicate@, t.object@)),
{
    let ghost tv = (t.subject@, t.predicate@, t.object@);
    let mut k: usize = 0;
    while k < u.len()
        invariant
            k <= u.len(),
            tv == (t.subject@, t.predicate@, t.object@),
            forall|m: int| 0 <= m < k ==> triple_view(u@)[m] != tv,
        decreases u.len() - k,
    {
        if u[k].0 == t.subject && u[k].1 == t.predicate && u[k].2 == t.object {
            assert(triple_view(u@)[k as int] == tv);
            return true;
        }
        assert(triple_view(u@)[k as int] == (u@[k as int].0@, u@[k as int].1@, u@[k as int].2@));
        k = k + 1;
    }
    false
}

/// The distinct relation triples of a file's extractions, in order of first
/// appearance.
pub fn reconcile_file_relations(exs: &Vec<(String, ExtractionResult)>) -> (r: Vec<(String, String, String)>)
    ensures
        triple_view(r@) == reconcile_relations(all_relation_triples(exs@)),
{
    let mut u: Vec<(String, String, String)> = Vec::new();
    let mut i: usize = 0;
    while i < exs.len()
        invariant
            i <= exs.len(),
            triple_view(u@) == reconcile_relations(all_relation_triples(exs@.subrange(0, i as int))),
        decreases exs.len() - i,
    {
        let rels = &exs[i].1.relations;
        let ghost before = all_relation_triples(exs@.subrange(0, i as int));
        let mut j: usize = 0;
        while j < rels.len()
            invariant
                i < exs.len(),
                rels == &exs@[i as int].1.relations,
                before == all_relation_triples(exs@.subrange(0, i as int)),
                j <= rels.len(),
                triple_view(u@) == reconcile_relations(
                    before + relation_triples(exs@[i as int].1).subrange(0, j as int),
                ),
            decreases rels.len() - j,
        {
            let t = &rels[j];
            let ghost ts = before + relation_triples(exs@[i as int].1).subrange(0, j as int);
            let ghost ts2 = before + relation_triples(exs@[i as int].1).subrange(0, j + 1);
            proof {
                assert(ts2.drop_last() =~= ts);
                assert(ts2.last() == (t.subject@, t.predicate@, t.object@));
            }
            if !contains_triple(&u, t) {
                u.push((t.subject.clone(), t.predicate.clone(), t.object.clone()));
                proof {
                    assert(triple_view(u@) =~= reconcile_relations(ts).push(
                        (t.subject@, t.predicate@, t.object@),
                    ));
                }
            }
            j = j + 1;
        }
        proof {
            assert(exs@.subrange(0, i + 1).drop_last() =~= exs@.subrange(0, i as int));
            assert(relation_triples(exs@[i as int].1).subrange(0, rels.len() as int)
                =~= relation_triples(exs@[i as int].1));
        }
        i = i + 1;
    }
    proof {
        assert(exs@.subrange(0, exs.len() as int) =~= exs@);
    }
    u
}

} // verus!
