use graph_rag::ingest::{
    chunk_records, content_kind, content_kind_of_lowercase, document_record, fail_run, file_record,
    prepare_file, ContentKind, FileOutcome, IngestError, IngestionRun, IngestionSummary, Status,
    MAX_CHUNK_CHARS,
};
use graph_rag::llm::{ExtractionResult, JsonExtractedEntity, JsonExtractedRelation};
use graph_rag::reconcile::{reconcile_file_entities, reconcile_file_relations};
use graph_rag::upsert::{plan_graph_writes, GraphWrite};

fn entity(id: &str, label: &str) -> JsonExtractedEntity {
    JsonExtractedEntity { id: id.to_string(), label: label.to_string() }
}

fn relation(s: &str, p: &str, o: &str) -> JsonExtractedRelation {
    JsonExtractedRelation { subject: s.to_string(), predicate: p.to_string(), object: o.to_string() }
}

#[test]
fn extensions_are_classified_in_any_case() {
    assert_eq!(content_kind("PDF"), ContentKind::Pdf);
    assert_eq!(content_kind("Md"), ContentKind::PlainText);
    assert_eq!(content_kind("png"), ContentKind::Unsupported);
    assert_eq!(content_kind(""), ContentKind::Unsupported);
    for ext in ["txt", "md", "rs", "toml", "log", "html", "css", "js"] {
        assert_eq!(content_kind_of_lowercase(ext), ContentKind::PlainText);
    }
    assert_eq!(content_kind_of_lowercase("TXT"), ContentKind::Unsupported);
}

#[test]
fn file_record_fields() {
    let f = file_record("/docs/notes.txt".to_string(), Some("notes.txt".to_string()), 42, Some((0, 0)));
    assert_eq!(f.id, "/docs/notes.txt");
    assert_eq!(f.path, "/docs/notes.txt");
    assert_eq!(f.filename, "notes.txt");
    assert_eq!(f.size_bytes, 42);
    assert_eq!(f.modified_at, "1970-01-01T00:00:00+00:00");
    assert_eq!(f.mime_type, Some("text/plain".to_string()));
    let g = file_record("/docs/noext".to_string(), None, 0, None);
    assert_eq!(g.filename, "/docs/noext");
    assert_eq!(g.mime_type, None);
    assert!(g.modified_at.contains('T'));
}

#[test]
fn document_record_fields() {
    let f = file_record("/d/a.md".to_string(), Some("a.md".to_string()), 1, Some((1431648000, 0)));
    assert_eq!(f.modified_at, "2015-05-15T00:00:00+00:00");
    let d = document_record(&f);
    assert_eq!(d.title, "a.md");
    assert_eq!(d.doc_type, "file");
    assert_eq!(d.language, "es");
    assert_eq!(d.source, "/d/a.md");
    assert_eq!(d.id.len(), 36);
    assert_ne!(d.id, document_record(&f).id);
}

#[test]
fn empty_text_is_nothing_to_ingest() {
    let f = file_record("/d/e.txt".to_string(), Some("e.txt".to_string()), 0, None);
    assert!(prepare_file(f, "  \n\n  ").is_none());
}

#[test]
fn embedding_count_must_match() {
    let chunks = vec![("id1".to_string(), "t1".to_string()), ("id2".to_string(), "t2".to_string())];
    let err = chunk_records(&"doc".to_string(), &chunks, 1).unwrap_err();
    assert_eq!(err, IngestError::ExtractionMismatch { vectors: 1, chunks: 2 });
    let ok = chunk_records(&"doc".to_string(), &chunks, 2).unwrap();
    assert_eq!(ok.len(), 2);
    assert_eq!(ok[1].id, "id2");
    assert_eq!(ok[1].text, "t2");
    assert_eq!(ok[1].index, 1);
    assert_eq!(ok[1].document_id, "doc");
    assert_eq!(ok[1].tokens, 0);
}

#[test]
fn one_small_text_file_end_to_end() {
    let words: Vec<String> = (0..50).map(|i| format!("w{}", i)).collect();
    let text = words.join(" ");
    let mut run = IngestionRun::start(1);
    run.begin_file("a.txt");
    assert_eq!(run.status.message, "[1/1] Procesando: a.txt...");
    assert_eq!(content_kind("txt"), ContentKind::PlainText);
    let f = file_record("/d/a.txt".to_string(), Some("a.txt".to_string()), 300, Some((0, 0)));
    let prepared = prepare_file(f.clone(), &text).unwrap();
    assert_eq!(prepared.chunks.len(), 1);
    assert_eq!(prepared.chunks[0].1, text);
    let chunks = chunk_records(&prepared.document.id, &prepared.chunks, 1).unwrap();
    let extractions = vec![(chunks[0].id.clone(), ExtractionResult::default())];
    let plan = plan_graph_writes(prepared.file, prepared.document.clone(), &chunks, &extractions);
    assert_eq!(plan.writes.len(), 3);
    assert!(matches!(&plan.writes[0], GraphWrite::UpsertFile { file } if *file == f));
    assert!(matches!(&plan.writes[1], GraphWrite::UpsertDocument { doc, file_id } if *doc == prepared.document && *file_id == f.id));
    assert!(matches!(&plan.writes[2], GraphWrite::UpsertChunk { chunk } if *chunk == chunks[0]));
    run.record_outcome(
        "a.txt",
        "/d/a.txt",
        FileOutcome::Ingested { chunks: chunks.len(), entities: plan.entities_count, relations: plan.relations_count },
    );
    let summary = run.finish();
    assert_eq!(
        summary,
        IngestionSummary {
            files_scanned: 1,
            files_ingested: 1,
            files_skipped: 0,
            chunks_created: 1,
            entities_created: 0,
            relations_created: 0
        }
    );
    assert!(!run.status.is_busy);
    assert_eq!(run.status.files_done, 0);
}

#[test]
fn one_png_file_is_skipped() {
    let mut run = IngestionRun::start(1);
    run.begin_file("pic.png");
    assert_eq!(content_kind("png"), ContentKind::Unsupported);
    run.record_outcome("pic.png", "/d/pic.png", FileOutcome::Skipped);
    assert_eq!(run.status.message, "[1/1] Omitido: pic.png");
    let summary = run.finish();
    assert_eq!(summary.files_scanned, 1);
    assert_eq!(summary.files_ingested, 0);
    assert_eq!(summary.files_skipped, 1);
    assert_eq!(summary.chunks_created, 0);
}

#[test]
fn scanned_is_ingested_plus_skipped() {
    let mut run = IngestionRun::start(4);
    let outcomes = vec![
        FileOutcome::Ingested { chunks: 3, entities: 2, relations: 1 },
        FileOutcome::Skipped,
        FileOutcome::Failed { reason: "boom".to_string() },
        FileOutcome::Ingested { chunks: 1, entities: 0, relations: 0 },
    ];
    for (i, o) in outcomes.into_iter().enumerate() {
        run.begin_file("f");
        assert_eq!(run.status.files_done, i + 1);
        run.record_outcome("f", "/p/f", o);
        let s = run.summary;
        assert_eq!(s.files_scanned, s.files_ingested + s.files_skipped);
    }
    assert_eq!(run.status.message, "[4/4] Procesando: f...");
    let s = run.finish();
    assert_eq!((s.files_scanned, s.files_ingested, s.files_skipped), (4, 2, 2));
    assert_eq!((s.chunks_created, s.entities_created, s.relations_created), (4, 2, 1));
    assert_eq!(
        run.status.message,
        "¡Indexación completada! Resumen: 4 ficheros escaneados, 2 ingeridos, 2 omitidos. 4 chunks, 2 entidades y 1 relaciones creadas."
    );
}

#[test]
fn failed_file_message() {
    let mut run = IngestionRun::start(2);
    run.begin_file("x.md");
    run.record_outcome("x.md", "/r/x.md", FileOutcome::Failed { reason: "no graph".to_string() });
    assert_eq!(run.status.message, "ERROR en /r/x.md: no graph");
    assert_eq!(run.summary.files_skipped, 1);
    run.begin_chunk("y.md", 2, 5);
    assert_eq!(run.status.message, "Fichero 'y.md': Extrayendo conocimiento del chunk 2/5...");
}

#[test]
fn run_start_and_failure_status() {
    let run = IngestionRun::start(3);
    assert!(run.status.is_busy);
    assert_eq!(run.status.message, "Iniciando indexación...");
    assert_eq!((run.status.files_done, run.status.files_total), (0, 3));
    let mut st = Status::idle("Servidor listo.");
    assert!(!st.is_busy);
    fail_run(&mut st, "La ruta no es un directorio: /x");
    assert_eq!(st.message, "Error en la indexación: La ruta no es un directorio: /x");
}

#[test]
fn summary_message_words() {
    let s = IngestionSummary {
        files_scanned: 10,
        files_ingested: 7,
        files_skipped: 3,
        chunks_created: 120,
        entities_created: 45,
        relations_created: 0,
    };
    assert_eq!(
        s.to_message(),
        "Resumen: 10 ficheros escaneados, 7 ingeridos, 3 omitidos. 120 chunks, 45 entidades y 0 relaciones creadas."
    );
}

#[test]
fn reextracted_knowledge_is_deduplicated() {
    let exs = vec![
        (
            "c1".to_string(),
            ExtractionResult {
                entities: vec![entity("Rust", "Technology"), entity("Mozilla", "Organization")],
                relations: vec![relation("Mozilla", "CREATED", "Rust")],
            },
        ),
        (
            "c2".to_string(),
            ExtractionResult {
                entities: vec![entity("Rust", "Concept")],
                relations: vec![relation("Mozilla", "CREATED", "Rust"), relation("Rust", "IS_A", "Language")],
            },
        ),
    ];
    let ents = reconcile_file_entities(&exs);
    assert_eq!(ents.len(), 2);
    assert_eq!(ents[0].id, "Rust");
    assert_eq!(ents[0].label, "Concept");
    assert_eq!(ents[1].id, "Mozilla");
    let rels = reconcile_file_relations(&exs);
    assert_eq!(
        rels,
        vec![
            ("Mozilla".to_string(), "CREATED".to_string(), "Rust".to_string()),
            ("Rust".to_string(), "IS_A".to_string(), "Language".to_string())
        ]
    );
}

#[test]
fn chunk_chain_and_write_order() {
    let f = file_record("/d/b.txt".to_string(), Some("b.txt".to_string()), 9, Some((0, 0)));
    let prepared = prepare_file(f, "aaaa\n\nbbbb\n\ncccc").unwrap();
    assert_eq!(prepared.chunks.len(), 1);
    let pairs = vec![
        ("k0".to_string(), "a".to_string()),
        ("k1".to_string(), "b".to_string()),
        ("k2".to_string(), "c".to_string()),
    ];
    let chunks = chunk_records(&prepared.document.id, &pairs, 3).unwrap();
    let exs = vec![
        ("k0".to_string(), ExtractionResult { entities: vec![entity("E", "Concept")], relations: vec![] }),
        ("k1".to_string(), ExtractionResult { entities: vec![entity("E", "Concept")], relations: vec![relation("E", "R", "E")] }),
        ("k2".to_string(), ExtractionResult::default()),
    ];
    let plan = plan_graph_writes(prepared.file, prepared.document, &chunks, &exs);
    let links: Vec<(String, String)> = plan
        .writes
        .iter()
        .filter_map(|w| match w {
            GraphWrite::LinkNextChunk { prev_id, next_id } => Some((prev_id.clone(), next_id.clone())),
            _ => None,
        })
        .collect();
    assert_eq!(links, vec![("k0".to_string(), "k1".to_string()), ("k1".to_string(), "k2".to_string())]);
    // file, document, 3 chunks, 2 links, 1 entity, 2 mentions, 1 relation
    assert_eq!(plan.writes.len(), 2 + 5 + 1 + 2 + 1);
    assert_eq!((plan.entities_count, plan.relations_count), (1, 1));
    assert!(matches!(&plan.writes[3], GraphWrite::UpsertChunk { chunk } if chunk.id == "k1"));
    assert!(matches!(&plan.writes[4], GraphWrite::LinkNextChunk { .. }));
    assert!(matches!(&plan.writes[7], GraphWrite::UpsertEntity { id, label } if id == "E" && label == "Concept"));
    assert!(matches!(&plan.writes[8], GraphWrite::LinkMention { chunk_id, entity_id } if chunk_id == "k0" && entity_id == "E"));
    assert!(matches!(&plan.writes[10], GraphWrite::LinkRelation { subject, predicate, object } if subject == "E" && predicate == "R" && object == "E"));
    assert_eq!(MAX_CHUNK_CHARS, 1200);
}

#[test]
fn ingest_error_messages() {
    assert_eq!(
        IngestError::InvalidInput { path: "/nope".to_string() }.to_message(),
        "La ruta no es un directorio: /nope"
    );
    assert_eq!(
        IngestError::ExtractionMismatch { vectors: 3, chunks: 4 }.to_message(),
        "Número de embeddings (3) distinto al número de chunks (4)"
    );
}
