//! Graph-augmented retrieval: what is done with the chunks that the vector
//! search returns and with the entities and relations around them.
use vstd::prelude::*;
use crate::foreign::{new_record_id, rfc3339_text};
use crate::ingest::now_text;
use crate::models::QueryNode;
use crate::text::{
    append_str, join_strings, join_with, lemma_seq_less_total, seq_less, str_less, string_from_chars,
    string_views,
};

verus! {

/// The answer given when the vector search finds no chunk.
pub const NO_INFORMATION_ANSWER: &'static str = "No se encontró información relevante en los documentos para responder a esta pregunta.";

/// Separator between chunk texts in the document context.
pub const CHUNK_SEPARATOR: &'static str = "\n\n---\n\n";

/// Opens the list of entities in the graph context.
pub const ENTITIES_HEADING: &'static str = "Se han identificado los siguientes conceptos clave: ";

/// Opens the list of relations in the graph context.
pub const RELATIONS_HEADING: &'static str = "\nSe han encontrado estas relaciones entre ellos:\n";

/// Opens the document part of a context that has graph knowledge.
pub const DOCUMENTS_HEADING: &'static str = "**Información de Documentos:**\n";

/// Opens the graph part of a composed context.
pub const GRAPH_HEADING: &'static str = "\n\n**Conocimiento Relevante del Grafo:**\n";

/// One row of the graph expansion: an entity mentioned by a retrieved
/// chunk and, when there is one, a relation to another such entity.
#[derive(Clone, Debug, PartialEq, Eq)]
pub struct ContextRow {
    pub entity1: Option<String>,
    pub rel_type: Option<String>,
    pub entity2: Option<String>,
}

/// A chunk returned by the vector search, best first.
#[derive(Clone, Debug, PartialEq, Eq)]
pub struct ChunkHit {
    pub id: String,
    pub text: String,
}

/// What to do after the vector search.
#[derive(Debug)]
pub enum RetrievalPlan {
    /// Nothing matched: this is the answer, and no model is asked.
    Answered { answer: String, key_entities: Vec<String> },
    /// Expand these chunks in the graph; their texts form the document
    /// context.
    Expand { chunk_ids: Vec<String>, document_context: String },
}

/// The line that renders a relation: its two ends in `str` order, so that
/// both directions of a relation give the same line.
pub open spec fn relation_line(a: Seq<char>, rel: Seq<char>, b: Seq<char>) -> Seq<char> {
    let (lo, hi) = if seq_less(a, b) { (a, b) } else { (b, a) };
    seq!['-', ' '] + lo + seq![' '] + rel + seq![' '] + hi
}

pub open spec fn row_line(r: ContextRow) -> Option<Seq<char>> {
    match (r.entity1, r.rel_type, r.entity2) {
        (Some(a), Some(p), Some(b)) => Some(relation_line(a@, p@, b@)),
        _ => None,
    }
}

/// The entities of the rows, in order, repeats included.
pub open spec fn row_entities(rows: Seq<ContextRow>) -> Seq<Seq<char>>
    decreases rows.len(),
{
    if rows.len() == 0 {
        seq![]
    } else {
        match rows.last().entity1 {
            Some(e) => row_entities(rows.drop_last()).push(e@),
            None => row_entities(rows.drop_last()),
        }
    }
}

/// The relation lines of the rows, in order, repeats included.
pub open spec fn row_lines(rows: Seq<ContextRow>) -> Seq<Seq<char>>
    decreases rows.len(),
{
    if rows.len() == 0 {
        seq![]
    } else {
        match row_line(rows.last()) {
            Some(l) => row_lines(rows.drop_last()).push(l),
            None => row_lines(rows.drop_last()),
        }
    }
}

/// The first appearance of each text, in order.
pub open spec fn dedup(xs: Seq<Seq<char>>) -> Seq<Seq<char>>
    decreases xs.len(),
{
    if xs.len() == 0 {
        seq![]
    } else {
        let u = dedup(xs.drop_last());
        if u.contains(xs.last()) {
            u
        } else {
            u.push(xs.last())
        }
    }
}

/// The distinct entities found around the retrieved chunks.
pub open spec fn key_entities(rows: Seq<ContextRow>) -> Seq<Seq<char>> {
    dedup(row_entities(rows))
}

/// The distinct relation lines found around the retrieved chunks.
pub open spec fn relation_lines(rows: Seq<ContextRow>) -> Seq<Seq<char>> {
    dedup(row_lines(rows))
}

/// The graph context: the entity list, then the relation list, each only
/// when it is not empty.
pub open spec fn graph_context_text(rows: Seq<ContextRow>) -> Seq<char> {
    let es = key_entities(rows);
    let ls = relation_lines(rows);
    (if es.len() > 0 {
        ENTITIES_HEADING@ + join_with(es, seq![',', ' ']) + seq!['.', '\n']
    } else {
        seq![]
    }) + (if ls.len() > 0 {
        RELATIONS_HEADING@ + join_with(ls, seq!['\n'])
    } else {
        seq![]
    })
}

/// The context handed to the completion model.
pub open spec fn composed_context(documents: Seq<char>, graph: Seq<char>) -> Seq<char> {
    if graph.len() == 0 {
        documents
    } else {
        DOCUMENTS_HEADING@ + documents + GRAPH_HEADING@ + graph
    }
}

proof fn lemma_dedup(xs: Seq<Seq<char>>)
    ensures
        dedup(xs).no_duplicates(),
        forall|t: Seq<char>| dedup(xs).contains(t) <==> xs.contains(t),
    decreases xs.len(),
{
    if xs.len() > 0 {
        let d = xs.drop_last();
        lemma_dedup(d);
        let u = dedup(d);
        assert forall|t: Seq<char>| xs.contains(t) <==> (d.contains(t) || t == xs.last()) by {
            if xs.contains(t) {
                let k = choose|k: int| 0 <= k < xs.len() && xs[k] == t;
                if k < d.len() {
                    assert(d[k] == xs[k]);
                }
            }
            if d.contains(t) {
                let k = choose|k: int| 0 <= k < d.len() && d[k] == t;
                assert(xs[k] == d[k]);
            }
            if t == xs.last() {
                assert(xs[xs.len() - 1] == t);
            }
        }
        if !u.contains(xs.last()) {
            let r = u.push(xs.last());
            assert forall|t: Seq<char>| r.contains(t) <==> (u.contains(t) || t == xs.last()) by {
                if r.contains(t) {
                    let k = choose|k: int| 0 <= k < r.len() && r[k] == t;
                    if k < u.len() {
                        assert(r[k] == u[k]);
                    }
                }
                if u.contains(t) {
                    let k = choose|k: int| 0 <= k < u.len() && u[k] == t;
                    assert(r[k] == u[k]);
                }
                if t == xs.last() {
                    assert(r[u.len() as int] == t);
                }
            }
        }
    }
}

proof fn lemma_row_lines_contains(rows: Seq<ContextRow>, i: int)
    requires
        0 <= i < rows.len(),
        row_line(rows[i]) is Some,
    ensures
        row_lines(rows).contains(row_line(rows[i])->0),
    decreases rows.len(),
{
    let l = row_line(rows[i])->0;
    if i == rows.len() - 1 {
        assert(row_lines(rows).last() == l);
        assert(row_lines(rows)[row_lines(rows).len() - 1] == l);
    } else {
        let d = rows.drop_last();
        assert(d[i] == rows[i]);
        lemma_row_lines_contains(d, i);
        let k = choose|k: int| 0 <= k < row_lines(d).len() && row_lines(d)[k] == l;
        assert(row_lines(rows)[k] == l);
    }
}

/// A relation is rendered the same way whichever direction it was
/// extracted in, and the relation list of the graph context holds each
/// rendered relation exactly once.
pub proof fn lemma_relation_rendered_once(rows: Seq<ContextRow>, i: int)
    requires
        0 <= i < rows.len(),
        row_line(rows[i]) is Some,
    ensures
        ({
            let r = rows[i];
            relation_line(r.entity1->0@, r.rel_type->0@, r.entity2->0@) == relation_line(
                r.entity2->0@,
                r.rel_type->0@,
                r.entity1->0@,
            )
        }),
        exists|k: int|
            0 <= k < relation_lines(rows).len() && relation_lines(rows)[k] == row_line(rows[i])->0
                && forall|j: int|
                0 <= j < relation_lines(rows).len() && relation_lines(rows)[j] == row_line(rows[i])->0
                    ==> j == k,
{
    let r = rows[i];
    lemma_seq_less_total(r.entity1->0@, r.entity2->0@);
    let l = row_line(rows[i])->0;
    lemma_row_lines_contains(rows, i);
    lemma_dedup(row_lines(rows));
    let ls = relation_lines(rows);
    let k = choose|k: int| 0 <= k < ls.len() && ls[k] == l;
    assert forall|j: int| 0 <= j < ls.len() && ls[j] == l implies j == k by {
        if j != k {
            assert(ls[j] == ls[k]);
        }
    }
}

fn contains_string(v: &Vec<String>, s: &String) -> (r: bool)
    ensures
        r == string_views(v@).contains(s@),
{
    let mut k: usize = 0;
    while k < v.len()
        invariant
            k <= v.len(),
            forall|m: int| 0 <= m < k ==> string_views(v@)[m] != s@,
        decreases v.len() - k,
    {
        assert(string_views(v@)[k as int] == v@[k as int]@);
        if v[k] == *s {
            return true;
        }
        k = k + 1;
    }
    false
}

fn render_relation(a: &String, rel: &String, b: &String) -> (r: String)
    ensures
        r@ == relation_line(a@, rel@, b@),
{
    let (lo, hi) = if str_less(a.as_str(), b.as_str()) { (a, b) } else { (b, a) };
    let mut out: Vec<char> = Vec::new();
    out.push('-');
    out.push(' ');
    append_str(&mut out, lo.as_str());
    out.push(' ');
    append_str(&mut out, rel.as_str());
    out.push(' ');
    append_str(&mut out, hi.as_str());
    proof {
        assert(out@ =~= relation_line(a@, rel@, b@));
    }
    string_from_chars(out.as_slice())
}

/// The graph context of the retrieved chunks and their distinct entities.
pub fn build_graph_context(rows: &Vec<ContextRow>) -> (r: (String, Vec<String>))
    ensures
        r.0@ == graph_context_text(rows@),
        string_views(r.1@) == key_entities(rows@),
{
    let mut entities: Vec<String> = Vec::new();
    let mut lines: Vec<String> = Vec::new();
    let mut i: usize = 0;
    while i < rows.len()
        invariant
            i <= rows.len(),
            string_views(entities@) == dedup(row_entities(rows@.subrange(0, i as int))),
            string_views(lines@) == dedup(row_lines(rows@.subrange(0, i as int))),
        decreases rows.len() - i,
    {
        let row = &rows[i];
        let ghost pre = rows@.subrange(0, i as int);
        let ghost sub = rows@.subrange(0, i + 1);
        proof {
            assert(sub.drop_last() =~= pre);
            assert(sub.last() == rows@[i as int]);
        }
        match &row.entity1 {
            Some(e) => {
                proof {
                    assert(row_entities(sub) == row_entities(pre).push(e@));
                    assert(row_entities(sub).drop_last() =~= row_entities(pre));
                    assert(row_entities(sub).last() == e@);
                }
                if !contains_string(&entities, e) {
                    let ghost before = entities@;
                    entities.push(e.clone());
                    proof {
                        assert(string_views(entities@) =~= string_views(before).push(e@));
                    }
                }
            },
            None => {
                proof {
                    assert(row_entities(sub) == row_entities(pre));
                }
            },
        }
        match (&row.entity1, &row.rel_type, &row.entity2) {
            (Some(a), Some(p), Some(b)) => {
                proof {
                    assert(row_line(rows@[i as int]) == Some(relation_line(a@, p@, b@)));
                    assert(row_lines(sub) == row_lines(pre).push(relation_line(a@, p@, b@)));
                    assert(row_lines(sub).drop_last() =~= row_lines(pre));
                    assert(row_lines(sub).last() == relation_line(a@, p@, b@));
                }
                let line = render_relation(a, p, b);
                if !contains_string(&lines, &line) {
                    let ghost before = lines@;
                    lines.push(line);
                    proof {
                        assert(string_views(lines@) =~= string_views(before).push(relation_line(a@, p@, b@)));
                    }
                }
            },
            _ => {
                proof {
                    assert(row_line(rows@[i as int]) is None);
                    assert(row_lines(sub) == row_lines(pre));
                }
            },
        }
        assert(string_views(entities@) == dedup(row_entities(sub)));
        assert(string_views(lines@) == dedup(row_lines(sub)));
        i = i + 1;
    }
    proof {
        assert(rows@.subrange(0, rows.len() as int) =~= rows@);
    }
    let mut out: Vec<char> = Vec::new();
    if entities.len() > 0 {
        append_str(&mut out, ENTITIES_HEADING);
        let listed = join_strings(&entities, ", ");
        proof {
            reveal_strlit(", ");
            assert(", "@ =~= seq![',', ' ']);
        }
        append_str(&mut out, listed.as_str());
        out.push('.');
        out.push('\n');
    }
    let ghost first = out@;
    if lines.len() > 0 {
        append_str(&mut out, RELATIONS_HEADING);
        let listed = join_strings(&lines, "\n");
        proof {
            reveal_strlit("\n");
            assert("\n"@ =~= seq!['\n']);
        }
        append_str(&mut out, listed.as_str());
    }
    proof {
        assert(out@ =~= graph_context_text(rows@));
    }
    (string_from_chars(out.as_slice()), entities)
}

/// The context handed to the completion model: the document context alone
/// when the graph context is empty, both under their headings otherwise.
pub fn compose_context(documents: &String, graph: &String) -> (r: String)
    ensures
        r@ == composed_context(documents@, graph@),
{
    if graph.as_str().is_empty() {
        documents.clone()
    } else {
        let mut out: Vec<char> = Vec::new();
        append_str(&mut out, DOCUMENTS_HEADING);
        append_str(&mut out, documents.as_str());
        append_str(&mut out, GRAPH_HEADING);
        append_str(&mut out, graph.as_str());
        string_from_chars(out.as_slice())
    }
}

/// The ids of the hits, in order.
pub open spec fn hit_ids(hits: Seq<ChunkHit>) -> Seq<Seq<char>> {
    hits.map_values(|h: ChunkHit| h.id@)
}

/// The texts of the hits, in order.
pub open spec fn hit_texts(hits: Seq<ChunkHit>) -> Seq<Seq<char>> {
    hits.map_values(|h: ChunkHit| h.text@)
}

/// Decides what follows a vector search: with no hit, the fixed answer and
/// no entity; otherwise the hits to expand and their texts, best first,
/// joined as the document context.
pub fn plan_retrieval(hits: &Vec<ChunkHit>) -> (r: RetrievalPlan)
    ensures
        hits.len() == 0 <==> r is Answered,
        match r {
            RetrievalPlan::Answered { answer, key_entities } => answer@ == NO_INFORMATION_ANSWER@
                && key_entities@.len() == 0,
            RetrievalPlan::Expand { chunk_ids, document_context } => string_views(chunk_ids@) == hit_ids(
                hits@,
            ) && document_context@ == join_with(hit_texts(hits@), CHUNK_SEPARATOR@),
        },
{
    if hits.len() == 0 {
        let mut out: Vec<char> = Vec::new();
        append_str(&mut out, NO_INFORMATION_ANSWER);
        return RetrievalPlan::Answered { answer: string_from_chars(out.as_slice()), key_entities: Vec::new() };
    }
    let mut ids: Vec<String> = Vec::new();
    let mut texts: Vec<String> = Vec::new();
    let mut i: usize = 0;
    while i < hits.len()
        invariant
            i <= hits.len(),
            string_views(ids@) == hit_ids(hits@).subrange(0, i as int),
            string_views(texts@) == hit_texts(hits@).subrange(0, i as int),
        decreases hits.len() - i,
    {
        let ghost ids0 = ids@;
        let ghost texts0 = texts@;
        ids.push(hits[i].id.clone());
        texts.push(hits[i].text.clone());
        proof {
            assert(string_views(ids@) =~= string_views(ids0).push(hits@[i as int].id@));
            assert(string_views(texts@) =~= string_views(texts0).push(hits@[i as int].text@));
            assert(hit_ids(hits@)[i as int] == hits@[i as int].id@);
            assert(hit_texts(hits@)[i as int] == hits@[i as int].text@);
            assert(string_views(ids@) =~= hit_ids(hits@).subrange(0, i + 1));
            assert(string_views(texts@) =~= hit_texts(hits@).subrange(0, i + 1));
        }
        i = i + 1;
    }
    proof {
        assert(hit_ids(hits@).subrange(0, hits.len() as int) =~= hit_ids(hits@));
        assert(hit_texts(hits@).subrange(0, hits.len() as int) =~= hit_texts(hits@));
    }
    let document_context = join_strings(&texts, CHUNK_SEPARATOR);
    RetrievalPlan::Expand { chunk_ids: ids, document_context }
}

/// The audit record of a question, with a fresh id and the current time.
pub fn new_query_record(question: &str) -> (r: QueryNode)
    ensures
        r.id@.len() == 36,
        r.question@ == question@,
        exists|s: i64, n: u32| rfc3339_text(s, n) == Some(r.created_at@),
{
    QueryNode { id: new_record_id(), question: question.to_owned(), created_at: now_text() }
}

} // verus!
