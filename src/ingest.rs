//! Ingestion of a directory: which files are read, the records built for
//! each, and the tally and status of one run.
use vstd::prelude::*;
use crate::chunker::{chunk_texts, split_into_chunks};
use crate::foreign::{
    format_rfc3339, guess_mime, guessed_mime, lower_of, lowercase, new_record_id, rfc3339_text, utc_now,
};
use crate::models::{ChunkNode, DocumentNode, FileNode};
use crate::text::{append_str, decimal, decimal_text, same_text, string_from_chars};

verus! {

/// Byte budget of one chunk.
pub const MAX_CHUNK_CHARS: usize = 1200;

/// How a file's content is read, by its extension.
#[derive(Clone, Copy, Debug, PartialEq, Eq, Structural)]
pub enum ContentKind {
    /// Text extracted from a PDF.
    Pdf,
    /// UTF-8 text read as it is.
    PlainText,
    /// Not ingested.
    Unsupported,
}

/// Why a run or a file could not be ingested.
#[derive(Clone, Debug, PartialEq, Eq)]
pub enum IngestError {
    /// The root of a run is not a directory.
    InvalidInput { path: String },
    /// The model returned another number of embeddings than there are chunks.
    ExtractionMismatch { vectors: usize, chunks: usize },
}

/// The message of an embedding count mismatch.
pub open spec fn mismatch_text(vectors: nat, chunks: nat) -> Seq<char> {
    "Número de embeddings ("@ + decimal(vectors) + ") distinto al número de chunks ("@ + decimal(chunks)
        + seq![')']
}

impl IngestError {
    /// The error in words.
    pub open spec fn message_text(&self) -> Seq<char> {
        match self {
            IngestError::InvalidInput { path } => "La ruta no es un directorio: "@ + path@,
            IngestError::ExtractionMismatch { vectors, chunks } => mismatch_text(*vectors as nat, *chunks as nat),
        }
    }

    /// The error in words.
    pub fn to_message(&self) -> (r: String)
        ensures
            r@ == self.message_text(),
    {
        let mut out: Vec<char> = Vec::new();
        match self {
            IngestError::InvalidInput { path } => {
                append_str(&mut out, "La ruta no es un directorio: ");
                append_str(&mut out, path.as_str());
            },
            IngestError::ExtractionMismatch { vectors, chunks } => {
                append_str(&mut out, "Número de embeddings (");
                append_str(&mut out, decimal_text(*vectors as u64).as_str());
                append_str(&mut out, ") distinto al número de chunks (");
                append_str(&mut out, decimal_text(*chunks as u64).as_str());
                out.push(')');
            },
        }
        string_from_chars(out.as_slice())
    }
}

/// The kind of a lower-case extension.
pub open spec fn kind_of_extension(ext: Seq<char>) -> ContentKind {
    if ext == "pdf"@ {
        ContentKind::Pdf
    } else if ext == "txt"@ || ext == "md"@ || ext == "rs"@ || ext == "toml"@ || ext == "log"@ || ext
        == "html"@ || ext == "css"@ || ext == "js"@ {
        ContentKind::PlainText
    } else {
        ContentKind::Unsupported
    }
}

/// The kind of a lower-case extension.
pub fn content_kind_of_lowercase(ext: &str) -> (r: ContentKind)
    ensures
        r == kind_of_extension(ext@),
{
    if same_text(ext, "pdf") {
        ContentKind::Pdf
    } else if same_text(ext, "txt") || same_text(ext, "md") || same_text(ext, "rs") || same_text(ext, "toml")
        || same_text(ext, "log") || same_text(ext, "html") || same_text(ext, "css") || same_text(ext, "js") {
        ContentKind::PlainText
    } else {
        ContentKind::Unsupported
    }
}

/// The kind of a file with extension `ext`, in any letter case.
pub fn content_kind(ext: &str) -> (r: ContentKind)
    ensures
        r == kind_of_extension(lower_of(ext@)),
{
    let lower = lowercase(ext);
    content_kind_of_lowercase(lower.as_str())
}

/// The text of a modification time: its RFC 3339 text where it has one.
pub open spec fn modified_text_of(modified: Option<(i64, u32)>, r: Seq<char>) -> bool {
    match modified {
        Some((s, n)) if rfc3339_text(s, n) is Some => r == rfc3339_text(s, n)->0,
        _ => exists|s: i64, n: u32| rfc3339_text(s, n) == Some(r),
    }
}

/// The current time as RFC 3339 text.
pub fn now_text() -> (r: String)
    ensures
        exists|s: i64, n: u32| rfc3339_text(s, n) == Some(r@),
{
    let (s, n) = utc_now();
    match format_rfc3339(s, n) {
        Some(t) => t,
        None => {
            // cannot happen: `utc_now` gives an instant that has a text
            proof {
                assert(false);
            }
            String::new()
        },
    }
}

/// The `:File` record of a file: keyed by its path, named by its file name
/// (the path where it has none), dated by its modification time (the
/// current time where that is unknown or cannot be written).
pub fn file_record(path: String, filename: Option<String>, size_bytes: i64, modified: Option<(i64, u32)>) -> (r: FileNode)
    ensures
        r.id@ == path@,
        r.path@ == path@,
        r.filename@ == match filename {
            Some(f) => f@,
            None => path@,
        },
        r.size_bytes == size_bytes,
        modified_text_of(modified, r.modified_at@),
        match r.mime_type {
            Some(m) => guessed_mime(path@) == Some(m@),
            None => guessed_mime(path@) is None,
        },
{
    let modified_at = match modified {
        Some((s, n)) => match format_rfc3339(s, n) {
            Some(t) => t,
            None => now_text(),
        },
        None => now_text(),
    };
    let mime_type = guess_mime(path.as_str());
    let filename = match filename {
        Some(f) => f,
        None => path.clone(),
    };
    FileNode { id: path.clone(), path, filename, size_bytes, modified_at, mime_type }
}

/// A fresh `:Document` record for a file: titled by its file name, of type
/// `file`, in Spanish, sourced from the file's path.
pub fn document_record(file: &FileNode) -> (r: DocumentNode)
    ensures
        r.id@.len() == 36,
        r.title@ == file.filename@,
        r.doc_type@ == "file"@,
        r.language@ == "es"@,
        r.source@ == file.path@,
{
    DocumentNode {
        id: new_record_id(),
        title: file.filename.clone(),
        doc_type: "file".to_owned(),
        language: "es".to_owned(),
        source: file.path.clone(),
    }
}

/// A file ready for embedding: its records and its chunks, each with a
/// fresh id.
#[derive(Debug)]
pub struct PreparedFile {
    pub file: FileNode,
    pub document: DocumentNode,
    pub chunks: Vec<(String, String)>,
}

/// Prepares a file whose text was read: `None` when the text yields no
/// chunk (nothing to ingest), otherwise its records and its chunks.
pub fn prepare_file(file: FileNode, text: &str) -> (r: Option<PreparedFile>)
    ensures
        chunk_texts(text@, MAX_CHUNK_CHARS as nat).len() == 0 <==> r is None,
        match r {
            Some(p) => {
                &&& p.file == file
                &&& p.document.id@.len() == 36
                &&& p.document.title@ == file.filename@
                &&& p.document.doc_type@ == "file"@
                &&& p.document.language@ == "es"@
                &&& p.document.source@ == file.path@
                &&& p.chunks@.len() == chunk_texts(text@, MAX_CHUNK_CHARS as nat).len()
                &&& forall|i: int|
                    0 <= i < p.chunks@.len() ==> (#[trigger] p.chunks@[i]).1@ == chunk_texts(
                        text@,
                        MAX_CHUNK_CHARS as nat,
                    )[i] && p.chunks@[i].0@.len() == 36
            },
            None => true,
        },
{
    let document = document_record(&file);
    let texts = split_into_chunks(text, MAX_CHUNK_CHARS);
    if texts.len() == 0 {
        return None;
    }
    let mut chunks: Vec<(String, String)> = Vec::new();
    let mut i: usize = 0;
    while i < texts.len()
        invariant
            i <= texts.len(),
            chunks@.len() == i,
            texts@.len() == chunk_texts(text@, MAX_CHUNK_CHARS as nat).len(),
            forall|k: int| 0 <= k < texts@.len() ==> #[trigger] texts@[k]@ == chunk_texts(text@, MAX_CHUNK_CHARS as nat)[k],
            forall|k: int|
                0 <= k < i ==> (#[trigger] chunks@[k]).1@ == texts@[k]@ && chunks@[k].0@.len() == 36,
        decreases texts.len() - i,
    {
        chunks.push((new_record_id(), texts[i].clone()));
        i = i + 1;
    }
    Some(PreparedFile { file, document, chunks })
}

/// The `:Chunk` records of a document, once its embeddings came back:
/// an error unless there is exactly one vector per chunk.
pub fn chunk_records(document_id: &String, chunks: &Vec<(String, String)>, vector_count: usize) -> (r: Result<
    Vec<ChunkNode>,
    IngestError,
>)
    requires
        chunks@.len() <= i64::MAX,
    ensures
        vector_count != chunks@.len() <==> r is Err,
        match r {
            Ok(v) => v@.len() == chunks@.len() && forall|i: int|
                0 <= i < v@.len() ==> (#[trigger] v@[i]).id == chunks@[i].0 && v@[i].text == chunks@[i].1
                    && v@[i].document_id == *document_id && v@[i].index == i && v@[i].tokens == 0,
            Err(e) => e == IngestError::ExtractionMismatch { vectors: vector_count, chunks: chunks@.len() as usize },
        },
{
    if vector_count != chunks.len() {
        return Err(IngestError::ExtractionMismatch { vectors: vector_count, chunks: chunks.len() });
    }
    let mut out: Vec<ChunkNode> = Vec::new();
    let mut i: usize = 0;
    while i < chunks.len()
        invariant
            i <= chunks.len(),
            chunks@.len() <= i64::MAX,
            out@.len() == i,
            forall|k: int|
                0 <= k < i ==> (#[trigger] out@[k]).id == chunks@[k].0 && out@[k].text == chunks@[k].1
                    && out@[k].document_id == *document_id && out@[k].index == k && out@[k].tokens == 0,
        decreases chunks.len() - i,
    {
        out.push(
            ChunkNode {
                id: chunks[i].0.clone(),
                document_id: document_id.clone(),
                index: i as i64,
                text: chunks[i].1.clone(),
                tokens: 0,
            },
        );
        i = i + 1;
    }
    Ok(out)
}

/// Counts of one ingestion run.
#[derive(Clone, Copy, Debug, Default, PartialEq, Eq, Structural)]
pub struct IngestionSummary {
    pub files_scanned: u32,
    pub files_ingested: u32,
    pub files_skipped: u32,
    pub chunks_created: usize,
    pub entities_created: usize,
    pub relations_created: usize,
}

/// The process-wide status of ingestion; progress is `files_done` out of
/// `files_total`.
#[derive(Clone, Debug, PartialEq, Eq)]
pub struct Status {
    pub is_busy: bool,
    pub message: String,
    pub files_done: usize,
    pub files_total: usize,
}

/// How one file of a run ended.
#[derive(Clone, Debug, PartialEq, Eq)]
pub enum FileOutcome {
    /// Written to the graph with this many chunks, entities and relations.
    Ingested { chunks: usize, entities: usize, relations: usize },
    /// Not ingested: unsupported, unreadable or empty.
    Skipped,
    /// Failed; the text says why.
    Failed { reason: String },
}

/// One ingestion run over a list of files, visited in order.
#[derive(Clone, Debug, PartialEq, Eq)]
pub struct IngestionRun {
    pub summary: IngestionSummary,
    pub status: Status,
}

impl IngestionSummary {
    /// Every scanned file was either ingested or skipped.
    pub open spec fn wf(&self) -> bool {
        self.files_scanned == self.files_ingested + self.files_skipped
    }

    /// The summary in words.
    pub open spec fn message_text(&self) -> Seq<char> {
        "Resumen: "@ + decimal(self.files_scanned as nat) + " ficheros escaneados, "@ + decimal(
            self.files_ingested as nat,
        ) + " ingeridos, "@ + decimal(self.files_skipped as nat) + " omitidos. "@ + decimal(
            self.chunks_created as nat,
        ) + " chunks, "@ + decimal(self.entities_created as nat) + " entidades y "@ + decimal(
            self.relations_created as nat,
        ) + " relaciones creadas."@
    }

    /// The summary in words.
    pub fn to_message(&self) -> (r: String)
        ensures
            r@ == self.message_text(),
    {
        let mut out: Vec<char> = Vec::new();
        append_str(&mut out, "Resumen: ");
        append_str(&mut out, decimal_text(self.files_scanned as u64).as_str());
        append_str(&mut out, " ficheros escaneados, ");
        append_str(&mut out, decimal_text(self.files_ingested as u64).as_str());
        append_str(&mut out, " ingeridos, ");
        append_str(&mut out, decimal_text(self.files_skipped as u64).as_str());
        append_str(&mut out, " omitidos. ");
        append_str(&mut out, decimal_text(self.chunks_created as u64).as_str());
        append_str(&mut out, " chunks, ");
        append_str(&mut out, decimal_text(self.entities_created as u64).as_str());
        append_str(&mut out, " entidades y ");
        append_str(&mut out, decimal_text(self.relations_created as u64).as_str());
        append_str(&mut out, " relaciones creadas.");
        string_from_chars(out.as_slice())
    }
}

impl Status {
    /// An idle status showing `message`, with no progress.
    pub fn idle(message: &str) -> (r: Status)
        ensures
            !r.is_busy,
            r.message@ == message@,
            r.files_done == 0,
            r.files_total == 0,
    {
        Status { is_busy: false, message: message.to_owned(), files_done: 0, files_total: 0 }
    }
}

/// `[k/n] ` as it opens the per-file messages.
pub open spec fn position_text(k: nat, n: nat) -> Seq<char> {
    seq!['['] + decimal(k) + seq!['/'] + decimal(n) + seq![']', ' ']
}

fn position(k: usize, n: usize) -> (r: Vec<char>)
    ensures
        r@ == position_text(k as nat, n as nat),
{
    let mut out: Vec<char> = Vec::new();
    out.push('[');
    append_str(&mut out, decimal_text(k as u64).as_str());
    out.push('/');
    append_str(&mut out, decimal_text(n as u64).as_str());
    out.push(']');
    out.push(' ');
    out
}

/// The message shown when a run fails as a whole.
pub open spec fn run_failed_text(reason: Seq<char>) -> Seq<char> {
    "Error en la indexación: "@ + reason
}

/// Marks the end of a run that failed as a whole.
pub fn fail_run(status: &mut Status, reason: &str)
    ensures
        !final(status).is_busy,
        final(status).files_done == 0,
        final(status).files_total == old(status).files_total,
        final(status).message@ == run_failed_text(reason@),
{
    let mut out: Vec<char> = Vec::new();
    append_str(&mut out, "Error en la indexación: ");
    append_str(&mut out, reason);
    status.message = string_from_chars(out.as_slice());
    status.is_busy = false;
    status.files_done = 0;
}

impl IngestionRun {
    /// The run's counts agree with its progress, which never passes the
    /// total, and every scanned file was either ingested or skipped.
    pub open spec fn wf(&self) -> bool {
        &&& self.summary.wf()
        &&& self.status.files_total <= u32::MAX
        &&& self.summary.files_scanned <= self.status.files_total
        &&& self.status.files_done <= self.status.files_total
        &&& self.status.files_done <= self.summary.files_scanned + 1
    }

    /// A run over `total_files` files starts busy, with no progress.
    pub fn start(total_files: usize) -> (r: IngestionRun)
        requires
            total_files <= u32::MAX,
        ensures
            r.wf(),
            r.summary == (IngestionSummary {
                files_scanned: 0,
                files_ingested: 0,
                files_skipped: 0,
                chunks_created: 0,
                entities_created: 0,
                relations_created: 0,
            }),
            r.status.is_busy,
            r.status.message@ == "Iniciando indexación..."@,
            r.status.files_done == 0,
            r.status.files_total == total_files,
    {
        IngestionRun {
            summary: IngestionSummary {
                files_scanned: 0,
                files_ingested: 0,
                files_skipped: 0,
                chunks_created: 0,
                entities_created: 0,
                relations_created: 0,
            },
            status: Status {
                is_busy: true,
                message: "Iniciando indexación...".to_owned(),
                files_done: 0,
                files_total: total_files,
            },
        }
    }

    /// Shows that the next file, `filename`, is being processed.
    pub fn begin_file(&mut self, filename: &str)
        requires
            old(self).wf(),
            old(self).summary.files_scanned < old(self).status.files_total,
        ensures
            final(self).wf(),
            final(self).summary == old(self).summary,
            final(self).status.is_busy == old(self).status.is_busy,
            final(self).status.files_total == old(self).status.files_total,
            final(self).status.files_done == old(self).summary.files_scanned + 1,
            final(self).status.files_done >= old(self).status.files_done,
            final(self).status.message@ == position_text(
                (old(self).summary.files_scanned + 1) as nat,
                old(self).status.files_total as nat,
            ) + "Procesando: "@ + filename@ + "..."@,
    {
        let k = self.summary.files_scanned as usize + 1;
        let mut out = position(k, self.status.files_total);
        append_str(&mut out, "Procesando: ");
        append_str(&mut out, filename);
        append_str(&mut out, "...");
        self.status.message = string_from_chars(out.as_slice());
        self.status.files_done = k;
    }

    /// Shows that knowledge is being extracted from chunk `chunk` (counted
    /// from one) of `chunk_count` of the file `filename`.
    pub fn begin_chunk(&mut self, filename: &str, chunk: usize, chunk_count: usize)
        ensures
            final(self).summary == old(self).summary,
            final(self).status.is_busy == old(self).status.is_busy,
            final(self).status.files_done == old(self).status.files_done,
            final(self).status.files_total == old(self).status.files_total,
            final(self).status.message@ == "Fichero '"@ + filename@ + "': Extrayendo conocimiento del chunk "@
                + decimal(chunk as nat) + seq!['/'] + decimal(chunk_count as nat) + "..."@,
    {
        let mut out: Vec<char> = Vec::new();
        append_str(&mut out, "Fichero '");
        append_str(&mut out, filename);
        append_str(&mut out, "': Extrayendo conocimiento del chunk ");
        append_str(&mut out, decimal_text(chunk as u64).as_str());
        out.push('/');
        append_str(&mut out, decimal_text(chunk_count as u64).as_str());
        append_str(&mut out, "...");
        self.status.message = string_from_chars(out.as_slice());
    }

    /// Counts how the current file, `filename` at `path`, ended. A skipped
    /// or failed file is counted as skipped and shown in the message.
    pub fn record_outcome(&mut self, filename: &str, path: &str, outcome: FileOutcome)
        requires
            old(self).wf(),
            old(self).summary.files_scanned < old(self).status.files_total,
            match outcome {
                FileOutcome::Ingested { chunks, entities, relations } => {
                    &&& old(self).summary.chunks_created + chunks <= usize::MAX
                    &&& old(self).summary.entities_created + entities <= usize::MAX
                    &&& old(self).summary.relations_created + relations <= usize::MAX
                },
                _ => true,
            },
        ensures
            final(self).wf(),
            final(self).summary.files_scanned == old(self).summary.files_scanned + 1,
            final(self).status.is_busy == old(self).status.is_busy,
            final(self).status.files_total == old(self).status.files_total,
            final(self).status.files_done == old(self).summary.files_scanned + 1,
            final(self).status.files_done >= old(self).status.files_done,
            match outcome {
                FileOutcome::Ingested { chunks, entities, relations } => {
                    &&& final(self).summary.files_ingested == old(self).summary.files_ingested + 1
                    &&& final(self).summary.files_skipped == old(self).summary.files_skipped
                    &&& final(self).summary.chunks_created == old(self).summary.chunks_created + chunks
                    &&& final(self).summary.entities_created == old(self).summary.entities_created + entities
                    &&& final(self).summary.relations_created == old(self).summary.relations_created + relations
                    &&& final(self).status.message == old(self).status.message
                },
                FileOutcome::Skipped => {
                    &&& final(self).summary.files_ingested == old(self).summary.files_ingested
                    &&& final(self).summary.files_skipped == old(self).summary.files_skipped + 1
                    &&& final(self).summary.chunks_created == old(self).summary.chunks_created
                    &&& final(self).summary.entities_created == old(self).summary.entities_created
                    &&& final(self).summary.relations_created == old(self).summary.relations_created
                    &&& final(self).status.message@ == position_text(
                        (old(self).summary.files_scanned + 1) as nat,
                        old(self).status.files_total as nat,
                    ) + "Omitido: "@ + filename@
                },
                FileOutcome::Failed { reason } => {
                    &&& final(self).summary.files_ingested == old(self).summary.files_ingested
                    &&& final(self).summary.files_skipped == old(self).summary.files_skipped + 1
                    &&& final(self).summary.chunks_created == old(self).summary.chunks_created
                    &&& final(self).summary.entities_created == old(self).summary.entities_created
                    &&& final(self).summary.relations_created == old(self).summary.relations_created
                    &&& final(self).status.message@ == "ERROR en "@ + path@ + ": "@ + reason@
                },
            },
    {
        let k = self.summary.files_scanned as usize + 1;
        self.summary.files_scanned = self.summary.files_scanned + 1;
        self.status.files_done = k;
        match outcome {
            FileOutcome::Ingested { chunks, entities, relations } => {
                self.summary.files_ingested = self.summary.files_ingested + 1;
                self.summary.chunks_created = self.summary.chunks_created + chunks;
                self.summary.entities_created = self.summary.entities_created + entities;
                self.summary.relations_created = self.summary.relations_created + relations;
            },
            FileOutcome::Skipped => {
                self.summary.files_skipped = self.summary.files_skipped + 1;
                let mut out = position(k, self.status.files_total);
                append_str(&mut out, "Omitido: ");
                append_str(&mut out, filename);
                self.status.message = string_from_chars(out.as_slice());
            },
            FileOutcome::Failed { reason } => {
                self.summary.files_skipped = self.summary.files_skipped + 1;
                let mut out: Vec<char> = Vec::new();
                append_str(&mut out, "ERROR en ");
                append_str(&mut out, path);
                append_str(&mut out, ": ");
                append_str(&mut out, reason.as_str());
                self.status.message = string_from_chars(out.as_slice());
            },
        }
    }

    /// Ends the run: the status goes idle with the summary in its message,
    /// and the summary is returned.
    pub fn finish(&mut self) -> (r: IngestionSummary)
        requires
            old(self).wf(),
        ensures
            r == old(self).summary,
            r.wf(),
            final(self).summary == old(self).summary,
            !final(self).status.is_busy,
            final(self).status.files_done == 0,
            final(self).status.files_total == old(self).status.files_total,
            final(self).status.message@ == "¡Indexación completada! "@ + old(self).summary.message_text(),
    {
        let mut out: Vec<char> = Vec::new();
        append_str(&mut out, "¡Indexación completada! ");
        append_str(&mut out, self.summary.to_message().as_str());
        self.status.message = string_from_chars(out.as_slice());
        self.status.is_busy = false;
        self.status.files_done = 0;
        self.summary
    }
}

} // verus!
