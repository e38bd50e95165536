//! Shapes exchanged with users: request and response bodies, and the graph
//! view built from the stored relations.
use vstd::prelude::*;
use crate::reconcile::{has_id, EntityPair};

verus! {

/// Body of a request that names a directory.
#[derive(Clone, Debug, PartialEq, Eq)]
pub struct SelectDirPayload {
    pub path: String,
}

/// Body of a question.
#[derive(Clone, Debug, PartialEq, Eq)]
pub struct RagQueryPayload {
    pub question: String,
}

/// Answer to a question, with the entities found around it.
#[derive(Clone, Debug, PartialEq, Eq)]
pub struct RagQueryResponse {
    pub answer: String,
    pub key_entities: Vec<String>,
}

/// An entity and its category.
#[derive(Clone, Debug, PartialEq, Eq)]
pub struct EntityInfo {
    pub id: String,
    pub label: String,
}

/// A node of the graph view: an entity, shown by its id, grouped by its
/// category.
#[derive(Clone, Debug, PartialEq, Eq)]
pub struct GraphNode {
    pub id: String,
    pub label: String,
    pub group: String,
}

/// An edge of the graph view: a relation between two entities.
#[derive(Clone, Debug, PartialEq, Eq)]
pub struct GraphEdge {
    pub source: String,
    pub target: String,
    pub label: String,
}

/// The graph view: distinct entity nodes and one edge per relation.
#[derive(Clone, Debug, PartialEq, Eq)]
pub struct GraphData {
    pub nodes: Vec<GraphNode>,
    pub edges: Vec<GraphEdge>,
}

/// A stored relation with the categories of its two ends, where known.
#[derive(Clone, Debug, PartialEq, Eq)]
pub struct RelationRow {
    pub source_id: String,
    pub source_group: Option<String>,
    pub relation: String,
    pub target_id: String,
    pub target_group: Option<String>,
}

/// The group of an entity: its category, or `Entity` where it has none.
pub open spec fn group_or_default(g: Option<String>) -> Seq<char> {
    match g {
        Some(s) => s@,
        None => "Entity"@,
    }
}

/// The (id, group) of both ends of every row, in order.
pub open spec fn row_ends(rows: Seq<RelationRow>) -> Seq<EntityPair>
    decreases rows.len(),
{
    if rows.len() == 0 {
        seq![]
    } else {
        let r = rows.last();
        row_ends(rows.drop_last()).push((r.source_id@, group_or_default(r.source_group))).push(
            (r.target_id@, group_or_default(r.target_group)),
        )
    }
}

/// The first (id, group) of each id, in order.
pub open spec fn first_by_id(xs: Seq<EntityPair>) -> Seq<EntityPair>
    decreases xs.len(),
{
    if xs.len() == 0 {
        seq![]
    } else {
        let u = first_by_id(xs.drop_last());
        if has_id(u, xs.last().0) {
            u
        } else {
            u.push(xs.last())
        }
    }
}

pub open spec fn node_view(n: GraphNode) -> EntityPair {
    (n.id@, n.group@)
}

pub open spec fn edge_view(e: GraphEdge) -> (Seq<char>, Seq<char>, Seq<char>) {
    (e.source@, e.target@, e.label@)
}

fn find_node(nodes: &Vec<GraphNode>, id: &String) -> (r: bool)
    ensures
        r == has_id(nodes@.map_values(|n: GraphNode| node_view(n)), id@),
{
    let ghost nv = nodes@.map_values(|n: GraphNode| node_view(n));
    let mut k: usize = 0;
    while k < nodes.len()
        invariant
            k <= nodes.len(),
            nv == nodes@.map_values(|n: GraphNode| node_view(n)),
            forall|m: int| 0 <= m < k ==> nv[m].0 != id@,
        decreases nodes.len() - k,
    {
        assert(nv[k as int].0 == nodes@[k as int].id@);
        if nodes[k].id == *id {
            return true;
        }
        k = k + 1;
    }
    false
}

fn group_text(g: &Option<String>) -> (r: String)
    ensures
        r@ == group_or_default(*g),
{
    match g {
        Some(s) => s.clone(),
        None => "Entity".to_owned(),
    }
}

/// Adds a node for `id` unless one is there.
fn add_node(nodes: &mut Vec<GraphNode>, id: &String, group: &Option<String>)
    requires
        forall|k: int| 0 <= k < old(nodes)@.len() ==> (#[trigger] old(nodes)@[k]).label == old(nodes)@[k].id,
    ensures
        forall|k: int| 0 <= k < final(nodes)@.len() ==> (#[trigger] final(nodes)@[k]).label == final(nodes)@[k].id,
        ({
            let u = old(nodes)@.map_values(|n: GraphNode| node_view(n));
            final(nodes)@.map_values(|n: GraphNode| node_view(n)) == if has_id(u, id@) {
                u
            } else {
                u.push((id@, group_or_default(*group)))
            }
        }),
{
    let ghost u = nodes@.map_values(|n: GraphNode| node_view(n));
    if !find_node(nodes, id) {
        let text = group_text(group);
        nodes.push(GraphNode { id: id.clone(), label: id.clone(), group: text });
        assert(nodes@.map_values(|n: GraphNode| node_view(n)) =~= u.push((id@, group_or_default(*group))));
    }
}

/// The graph view of stored relations: a node per distinct entity, in
/// order of first appearance, labelled by its id and grouped by the
/// category it first appeared with; an edge per relation, in order.
pub fn graph_data_from_rows(rows: &Vec<RelationRow>) -> (r: GraphData)
    ensures
        r.nodes@.map_values(|n: GraphNode| node_view(n)) == first_by_id(row_ends(rows@)),
        forall|k: int| 0 <= k < r.nodes@.len() ==> (#[trigger] r.nodes@[k]).label == r.nodes@[k].id,
        r.edges@.map_values(|e: GraphEdge| edge_view(e)) == rows@.map_values(
            |x: RelationRow| (x.source_id@, x.target_id@, x.relation@),
        ),
{
    let mut nodes: Vec<GraphNode> = Vec::new();
    let mut edges: Vec<GraphEdge> = Vec::new();
    let mut i: usize = 0;
    while i < rows.len()
        invariant
            i <= rows.len(),
            nodes@.map_values(|n: GraphNode| node_view(n)) == first_by_id(row_ends(rows@.subrange(0, i as int))),
            forall|k: int| 0 <= k < nodes@.len() ==> (#[trigger] nodes@[k]).label == nodes@[k].id,
            edges@.map_values(|e: GraphEdge| edge_view(e)) == rows@.subrange(0, i as int).map_values(
                |x: RelationRow| (x.source_id@, x.target_id@, x.relation@),
            ),
        decreases rows.len() - i,
    {
        let row = &rows[i];
        let ghost pre = row_ends(rows@.subrange(0, i as int));
        let ghost a = (row.source_id@, group_or_default(row.source_group));
        let ghost b = (row.target_id@, group_or_default(row.target_group));
        proof {
            assert(rows@.subrange(0, i + 1).drop_last() =~= rows@.subrange(0, i as int));
            assert(row_ends(rows@.subrange(0, i + 1)) == pre.push(a).push(b));
            assert(pre.push(a).push(b).drop_last() =~= pre.push(a));
            assert(pre.push(a).drop_last() =~= pre);
            assert(pre.push(a).last() == a);
            assert(pre.push(a).push(b).last() == b);
            assert(first_by_id(pre.push(a)) == if has_id(first_by_id(pre), a.0) {
                first_by_id(pre)
            } else {
                first_by_id(pre).push(a)
            });
            assert(first_by_id(pre.push(a).push(b)) == if has_id(first_by_id(pre.push(a)), b.0) {
                first_by_id(pre.push(a))
            } else {
                first_by_id(pre.push(a)).push(b)
            });
        }
        add_node(&mut nodes, &row.source_id, &row.source_group);
        assert(nodes@.map_values(|n: GraphNode| node_view(n)) == first_by_id(pre.push(a)));
        add_node(&mut nodes, &row.target_id, &row.target_group);
        let ghost e0 = edges@;
        edges.push(GraphEdge { source: row.source_id.clone(), target: row.target_id.clone(), label: row.relation.clone() });
        proof {
            assert(edges@.map_values(|e: GraphEdge| edge_view(e)) =~= e0.map_values(|e: GraphEdge| edge_view(e)).push(
                (row.source_id@, row.target_id@, row.relation@),
            ));
            assert(edges@.map_values(|e: GraphEdge| edge_view(e)) =~= rows@.subrange(0, i + 1).map_values(
                |x: RelationRow| (x.source_id@, x.target_id@, x.relation@),
            ));
        }
        i = i + 1;
    }
    proof {
        assert(rows@.subrange(0, rows.len() as int) =~= rows@);
    }
    GraphData { nodes, edges }
}

} // verus!
