//! The steps of ingesting one file and of answering one question, each as
//! a function from the current stage and what the outside world reported
//! to the next stage and the next thing to do.
//!
//! A file: read the text, embed the chunks in one request, extract
//! knowledge chunk by chunk, write everything in one transaction.
//! A question: search the vector index, expand the hits in the graph, log
//! the query, ask the completion model.
use vstd::prelude::*;
use crate::chunker::chunk_texts;
use crate::foreign::lower_of;
use crate::ingest::{
    chunk_records, content_kind, kind_of_extension, mismatch_text, prepare_file, ContentKind, FileOutcome, IngestError,
    PreparedFile, MAX_CHUNK_CHARS,
};
use crate::llm::ExtractionResult;
use crate::models::{ChunkNode, DocumentNode, FileNode, QueryNode};
use crate::rag::{
    build_graph_context, compose_context, composed_context, graph_context_text, hit_ids, hit_texts,
    key_entities, new_query_record, plan_retrieval, ChunkHit, ContextRow, RetrievalPlan, CHUNK_SEPARATOR,
    NO_INFORMATION_ANSWER,
};
use crate::text::{join_with, string_views};
use crate::reconcile::{all_entity_pairs, all_relation_triples, reconcile_entities, reconcile_relations};
use crate::upsert::{is_file_plan, plan_graph_writes, UpsertPlan};

verus! {

/// Where the ingestion of one file stands.
#[derive(Debug)]
pub enum FileStage {
    /// Waiting for the file's text.
    Reading { file: FileNode },
    /// Waiting for the vectors of the chunks.
    Embedding { prepared: PreparedFile },
    /// Extracting knowledge; `extractions` holds those of the first chunks.
    Extracting {
        file: FileNode,
        document: DocumentNode,
        chunks: Vec<ChunkNode>,
        extractions: Vec<(String, ExtractionResult)>,
    },
    /// Waiting for the transaction to commit.
    Writing { chunks: usize, entities: usize, relations: usize },
    /// Nothing more to do.
    Done,
}

/// What the outside world reports.
#[derive(Debug)]
pub enum FileEvent {
    /// The text of the file, or `None` where it could not be read as text.
    Text { text: Option<String> },
    /// The embedding model returned this many vectors.
    Vectors { count: usize },
    /// The extraction of the current chunk.
    Extraction { result: ExtractionResult },
    /// The transaction committed.
    Committed,
    /// An outside call failed.
    Failed { reason: String },
}

/// What to do next.
#[derive(Debug)]
pub enum FileAction {
    /// Read the text of the file, extracting it from a PDF where `kind` says so.
    ReadText { kind: ContentKind },
    /// Embed these chunk texts in one request, keeping their order.
    Embed { texts: Vec<String> },
    /// Extract knowledge from the chunk at `index`.
    Extract { index: usize, text: String },
    /// Run these writes in one transaction; the vector of a chunk is the
    /// one at its index.
    Write { plan: UpsertPlan },
    /// The file is done.
    Finish { outcome: FileOutcome },
}

/// The extractions so far belong to the first chunks, in order, and some
/// chunk is still without one.
pub open spec fn extracting_wf(chunks: Seq<ChunkNode>, extractions: Seq<(String, ExtractionResult)>) -> bool {
    &&& extractions.len() < chunks.len()
    &&& chunks.len() <= i64::MAX
    &&& forall|i: int| 0 <= i < extractions.len() ==> (#[trigger] extractions[i]).0 == chunks[i].id
    &&& forall|i: int| 0 <= i < chunks.len() ==> (#[trigger] chunks[i]).index == i
}

/// A stage that `advance` accepts.
pub open spec fn stage_wf(stage: FileStage) -> bool {
    match stage {
        FileStage::Embedding { prepared } => prepared.chunks@.len() > 0 && prepared.chunks@.len() <= i64::MAX,
        FileStage::Extracting { file, document, chunks, extractions } => extracting_wf(chunks@, extractions@),
        _ => true,
    }
}

/// How a file starts: a file of an unsupported kind is skipped at once,
/// any other is read as its kind says.
pub open spec fn begin_result(file: FileNode, extension: Seq<char>, stage: FileStage, action: FileAction) -> bool {
    let kind = kind_of_extension(lower_of(extension));
    if kind == ContentKind::Unsupported {
        stage is Done && action == FileAction::Finish { outcome: FileOutcome::Skipped }
    } else {
        stage == FileStage::Reading { file } && action == FileAction::ReadText { kind }
    }
}

/// Starts a file with extension `extension`.
pub fn begin_file_ingestion(file: FileNode, extension: &str) -> (r: (FileStage, FileAction))
    ensures
        stage_wf(r.0),
        begin_result(file, extension@, r.0, r.1),
{
    let kind = content_kind(extension);
    match kind {
        ContentKind::Unsupported => (FileStage::Done, FileAction::Finish { outcome: FileOutcome::Skipped }),
        _ => (FileStage::Reading { file }, FileAction::ReadText { kind }),
    }
}

/// The texts of prepared chunks, in order.
fn chunk_texts_of(chunks: &Vec<(String, String)>) -> (r: Vec<String>)
    ensures
        r@.len() == chunks@.len(),
        forall|i: int| 0 <= i < r@.len() ==> #[trigger] r@[i] == chunks@[i].1,
{
    let mut out: Vec<String> = Vec::new();
    let mut i: usize = 0;
    while i < chunks.len()
        invariant
            i <= chunks.len(),
            out@.len() == i,
            forall|k: int| 0 <= k < i ==> #[trigger] out@[k] == chunks@[k].1,
        decreases chunks.len() - i,
    {
        out.push(chunks[i].1.clone());
        i = i + 1;
    }
    out
}

/// The step taken from `stage` on `event`.
pub open spec fn advance_result(stage: FileStage, event: FileEvent, next: FileStage, action: FileAction) -> bool {
    let r = (next, action);
    &&& (action is Finish <==> next is Done)
    &&& (event is Failed && !(stage is Done) ==> action == FileAction::Finish {
        outcome: FileOutcome::Failed { reason: event->Failed_reason },
    })
    &&& match (stage, event) {
            (FileStage::Reading { file }, FileEvent::Text { text: None }) => r.1 == FileAction::Finish {
                outcome: FileOutcome::Skipped,
            },
            (FileStage::Reading { file }, FileEvent::Text { text: Some(t) }) => if chunk_texts(
                t@,
                MAX_CHUNK_CHARS as nat,
            ).len() == 0 {
                r.1 == FileAction::Finish { outcome: FileOutcome::Skipped }
            } else if chunk_texts(t@, MAX_CHUNK_CHARS as nat).len() > i64::MAX {
                r.1 is Finish && r.1->outcome is Failed
            } else {
                match (r.0, r.1) {
                    (FileStage::Embedding { prepared }, FileAction::Embed { texts }) => {
                        &&& prepared.file == file
                        &&& texts@.len() == chunk_texts(t@, MAX_CHUNK_CHARS as nat).len()
                        &&& forall|i: int|
                            0 <= i < texts@.len() ==> #[trigger] texts@[i]@ == chunk_texts(
                                t@,
                                MAX_CHUNK_CHARS as nat,
                            )[i] && texts@[i] == prepared.chunks@[i].1
                    },
                    _ => false,
                }
            },
            (FileStage::Embedding { prepared }, FileEvent::Vectors { count }) => if count
                != prepared.chunks@.len() {
                match r.1 {
                    FileAction::Finish { outcome: FileOutcome::Failed { reason } } => reason@ == mismatch_text(
                        count as nat,
                        prepared.chunks@.len(),
                    ),
                    _ => false,
                }
            } else {
                match (r.0, r.1) {
                    (
                        FileStage::Extracting { file, document, chunks, extractions },
                        FileAction::Extract { index, text },
                    ) => {
                        &&& file == prepared.file
                        &&& document == prepared.document
                        &&& chunks@.len() == prepared.chunks@.len()
                        &&& forall|i: int|
                            0 <= i < chunks@.len() ==> (#[trigger] chunks@[i]).id == prepared.chunks@[i].0
                                && chunks@[i].text == prepared.chunks@[i].1 && chunks@[i].document_id
                                == prepared.document.id && chunks@[i].tokens == 0
                        &&& extractions@.len() == 0
                        &&& index == 0
                        &&& text == chunks@[0].text
                    },
                    _ => false,
                }
            },
            (FileStage::Extracting { file, document, chunks, extractions }, FileEvent::Extraction { result }) => {
                let done = extractions@.push((chunks@[extractions@.len() as int].id, result));
                if done.len() < chunks@.len() {
                    match (r.0, r.1) {
                        (
                            FileStage::Extracting { file: f2, document: d2, chunks: c2, extractions: e2 },
                            FileAction::Extract { index, text },
                        ) => f2 == file && d2 == document && c2 == chunks && e2@ == done && index == done.len()
                            && text == chunks@[index as int].text,
                        _ => false,
                    }
                } else {
                    match (r.0, r.1) {
                        (FileStage::Writing { chunks: nc, entities, relations }, FileAction::Write { plan }) => {
                            &&& is_file_plan(plan.writes@, file, document, chunks@, done)
                            &&& nc == chunks@.len()
                            &&& entities == reconcile_entities(all_entity_pairs(done)).len()
                            &&& relations == reconcile_relations(all_relation_triples(done)).len()
                            &&& plan.entities_count == entities
                            &&& plan.relations_count == relations
                        },
                        _ => false,
                    }
                }
            },
            (FileStage::Writing { chunks, entities, relations }, FileEvent::Committed) => r.1
                == FileAction::Finish { outcome: FileOutcome::Ingested { chunks, entities, relations } },
            (FileStage::Done, _) => r.1 is Finish,
            (_, FileEvent::Failed { reason }) => true,
            _ => r.1 is Finish && r.1->outcome is Failed,
        }
}

/// Takes the next step of a file's ingestion from what was reported.
/// A failed outside call ends the file as failed; unreadable or empty text
/// ends it as skipped; a vector count other than the chunk count ends it as
/// failed before any extraction; the writes are planned once every chunk
/// has its extraction; the file is ingested once they commit. An event
/// that the stage does not expect ends the file as failed.
pub fn advance(stage: FileStage, event: FileEvent) -> (r: (FileStage, FileAction))
    requires
        stage_wf(stage),
    ensures
        stage_wf(r.0),
        advance_result(stage, event, r.0, r.1),
{
    match (stage, event) {
        (FileStage::Done, FileEvent::Failed { reason }) => (
            FileStage::Done,
            FileAction::Finish { outcome: FileOutcome::Failed { reason } },
        ),
        (_, FileEvent::Failed { reason }) => (
            FileStage::Done,
            FileAction::Finish { outcome: FileOutcome::Failed { reason } },
        ),
        (FileStage::Reading { file }, FileEvent::Text { text }) => match text {
            None => (FileStage::Done, FileAction::Finish { outcome: FileOutcome::Skipped }),
            Some(t) => match prepare_file(file, t.as_str()) {
                None => (FileStage::Done, FileAction::Finish { outcome: FileOutcome::Skipped }),
                Some(prepared) => {
                    if prepared.chunks.len() as u64 > i64::MAX as u64 {
                        (
                            FileStage::Done,
                            FileAction::Finish {
                                outcome: FileOutcome::Failed { reason: "demasiados chunks".to_owned() },
                            },
                        )
                    } else {
                        let texts = chunk_texts_of(&prepared.chunks);
                        (FileStage::Embedding { prepared }, FileAction::Embed { texts })
                    }
                },
            },
        },
        (FileStage::Embedding { prepared }, FileEvent::Vectors { count }) => {
            match chunk_records(&prepared.document.id, &prepared.chunks, count) {
                Err(e) => {
                    let n = prepared.chunks.len();
                    let reason = e.to_message();
                    assert(e == IngestError::ExtractionMismatch { vectors: count, chunks: n });
                    (FileStage::Done, FileAction::Finish { outcome: FileOutcome::Failed { reason } })
                },
                Ok(chunks) => {
                    let text = chunks[0].text.clone();
                    let PreparedFile { file, document, chunks: _ } = prepared;
                    (
                        FileStage::Extracting { file, document, chunks, extractions: Vec::new() },
                        FileAction::Extract { index: 0, text },
                    )
                },
            }
        },
        (
            FileStage::Extracting { file, document, chunks, mut extractions },
            FileEvent::Extraction { result },
        ) => {
            let k = extractions.len();
            extractions.push((chunks[k].id.clone(), result));
            if extractions.len() < chunks.len() {
                let index = extractions.len();
                let text = chunks[index].text.clone();
                (FileStage::Extracting { file, document, chunks, extractions }, FileAction::Extract { index, text })
            } else {
                let n = chunks.len();
                let plan = plan_graph_writes(file, document, &chunks, &extractions);
                let entities = plan.entities_count;
                let relations = plan.relations_count;
                (FileStage::Writing { chunks: n, entities, relations }, FileAction::Write { plan })
            }
        },
        (FileStage::Writing { chunks, entities, relations }, FileEvent::Committed) => (
            FileStage::Done,
            FileAction::Finish { outcome: FileOutcome::Ingested { chunks, entities, relations } },
        ),
        (FileStage::Done, _) => (
            FileStage::Done,
            FileAction::Finish { outcome: FileOutcome::Failed { reason: "el fichero ya había terminado".to_owned() } },
        ),
        _ => (
            FileStage::Done,
            FileAction::Finish { outcome: FileOutcome::Failed { reason: "evento inesperado".to_owned() } },
        ),
    }
}

/// Where the answering of one question stands.
#[derive(Debug)]
pub enum QueryStage {
    /// Waiting for the chunks closest to the question.
    Searching { question: String },
    /// Waiting for the entities and relations around the hits.
    Expanding { question: String, document_context: String },
    /// Waiting for the audit record to be written.
    Logging { question: String, context: String, key_entities: Vec<String> },
    /// Waiting for the completion model.
    Answering { key_entities: Vec<String> },
    /// Nothing more to do.
    Done,
}

/// What the outside world reports about a question.
#[derive(Debug)]
pub enum QueryEvent {
    /// The closest chunks, best first.
    Hits { hits: Vec<ChunkHit> },
    /// The graph expansion of the hits.
    Rows { rows: Vec<ContextRow> },
    /// The audit record was written, or could not be.
    Logged { written: bool },
    /// The completion model's answer.
    Completed { answer: String },
    /// An outside call failed.
    Failed { reason: String },
}

/// What to do next for a question.
#[derive(Debug)]
pub enum QueryAction {
    /// Embed the question and search the vector index with it.
    Search { question: String },
    /// Expand these chunks in the graph.
    Expand { chunk_ids: Vec<String> },
    /// Write this audit record, linked to the hits with their scores.
    Log { record: QueryNode },
    /// Ask the completion model.
    Complete { question: String, context: String },
    /// The answer and the entities found.
    Answer { answer: String, key_entities: Vec<String> },
    /// The question failed; no partial answer is given.
    Fail { reason: String },
}

/// The step taken for a question from `stage` on `event`.
pub open spec fn query_result(stage: QueryStage, event: QueryEvent, next: QueryStage, action: QueryAction) -> bool {
    &&& (action is Answer || action is Fail) == next is Done
    &&& (event is Failed && !(stage is Done) ==> action == QueryAction::Fail { reason: event->Failed_reason })
    &&& match (stage, event) {
        (QueryStage::Searching { question }, QueryEvent::Hits { hits }) => if hits@.len() == 0 {
            match action {
                QueryAction::Answer { answer, key_entities } => answer@ == NO_INFORMATION_ANSWER@
                    && key_entities@.len() == 0,
                _ => false,
            }
        } else {
            match (next, action) {
                (QueryStage::Expanding { question: q2, document_context }, QueryAction::Expand { chunk_ids }) => {
                    &&& q2 == question
                    &&& document_context@ == join_with(hit_texts(hits@), CHUNK_SEPARATOR@)
                    &&& string_views(chunk_ids@) == hit_ids(hits@)
                },
                _ => false,
            }
        },
        (QueryStage::Expanding { question, document_context }, QueryEvent::Rows { rows }) => match (
            next,
            action,
        ) {
            (QueryStage::Logging { question: q2, context, key_entities: ks }, QueryAction::Log { record }) => {
                &&& q2 == question
                &&& context@ == composed_context(document_context@, graph_context_text(rows@))
                &&& string_views(ks@) == key_entities(rows@)
                &&& record.question@ == question@
                &&& record.id@.len() == 36
            },
            _ => false,
        },
        (QueryStage::Logging { question, context, key_entities }, QueryEvent::Logged { written }) => match (
            next,
            action,
        ) {
            (QueryStage::Answering { key_entities: ks }, QueryAction::Complete { question: q2, context: c2 }) => ks
                == key_entities && q2 == question && c2 == context,
            _ => false,
        },
        (QueryStage::Answering { key_entities }, QueryEvent::Completed { answer }) => action
            == QueryAction::Answer { answer, key_entities },
        (_, QueryEvent::Failed { reason }) => true,
        _ => action is Fail,
    }
}

/// Starts answering `question` with a search.
pub fn begin_query(question: &str) -> (r: (QueryStage, QueryAction))
    ensures
        r.0 matches QueryStage::Searching { question: q } && q@ == question@,
        r.1 matches QueryAction::Search { question: q } && q@ == question@,
{
    (QueryStage::Searching { question: question.to_owned() }, QueryAction::Search { question: question.to_owned() })
}

/// Takes the next step of answering a question. No hit gives the fixed
/// answer without asking the completion model; the audit record is written
/// before the model is asked, and whether it could be written does not
/// change the answer; a failed outside call fails the question.
pub fn advance_query(stage: QueryStage, event: QueryEvent) -> (r: (QueryStage, QueryAction))
    ensures
        query_result(stage, event, r.0, r.1),
{
    match (stage, event) {
        (QueryStage::Done, QueryEvent::Failed { reason }) => (QueryStage::Done, QueryAction::Fail { reason }),
        (_, QueryEvent::Failed { reason }) => (QueryStage::Done, QueryAction::Fail { reason }),
        (QueryStage::Searching { question }, QueryEvent::Hits { hits }) => match plan_retrieval(&hits) {
            RetrievalPlan::Answered { answer, key_entities } => (
                QueryStage::Done,
                QueryAction::Answer { answer, key_entities },
            ),
            RetrievalPlan::Expand { chunk_ids, document_context } => (
                QueryStage::Expanding { question, document_context },
                QueryAction::Expand { chunk_ids },
            ),
        },
        (QueryStage::Expanding { question, document_context }, QueryEvent::Rows { rows }) => {
            let (graph_context, key_entities) = build_graph_context(&rows);
            let context = compose_context(&document_context, &graph_context);
            let record = new_query_record(question.as_str());
            (QueryStage::Logging { question, context, key_entities }, QueryAction::Log { record })
        },
        (QueryStage::Logging { question, context, key_entities }, QueryEvent::Logged { written: _ }) => (
            QueryStage::Answering { key_entities },
            QueryAction::Complete { question, context },
        ),
        (QueryStage::Answering { key_entities }, QueryEvent::Completed { answer }) => (
            QueryStage::Done,
            QueryAction::Answer { answer, key_entities },
        ),
        _ => (QueryStage::Done, QueryAction::Fail { reason: "evento inesperado".to_owned() }),
    }
}

} // verus!
