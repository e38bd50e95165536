use graph_rag::ingest::{file_record, ContentKind, FileOutcome};
use graph_rag::llm::{ExtractionResult, JsonExtractedEntity};
use graph_rag::orchestrator::{advance, begin_file_ingestion, FileAction, FileEvent, FileStage};
use graph_rag::upsert::GraphWrite;

fn record(name: &str) -> graph_rag::models::FileNode {
    file_record(format!("/d/{}", name), Some(name.to_string()), 10, Some((0, 0)))
}

#[test]
fn unsupported_file_is_skipped_without_reading() {
    let (stage, action) = begin_file_ingestion(record("pic.png"), "png");
    assert!(matches!(stage, FileStage::Done));
    assert!(matches!(action, FileAction::Finish { outcome: FileOutcome::Skipped }));
}

#[test]
fn unreadable_or_empty_text_is_skipped() {
    let (stage, action) = begin_file_ingestion(record("a.TXT"), "TXT");
    assert!(matches!(action, FileAction::ReadText { kind: ContentKind::PlainText }));
    let (stage, action) = advance(stage, FileEvent::Text { text: None });
    assert!(matches!(stage, FileStage::Done));
    assert!(matches!(action, FileAction::Finish { outcome: FileOutcome::Skipped }));
    let (stage, _) = begin_file_ingestion(record("b.md"), "md");
    let (_, action) = advance(stage, FileEvent::Text { text: Some(" \n\n ".to_string()) });
    assert!(matches!(action, FileAction::Finish { outcome: FileOutcome::Skipped }));
}

#[test]
fn pdf_is_read_by_extraction() {
    let (_, action) = begin_file_ingestion(record("paper.pdf"), "pdf");
    assert!(matches!(action, FileAction::ReadText { kind: ContentKind::Pdf }));
}

#[test]
fn vector_count_mismatch_fails_the_file() {
    let (stage, _) = begin_file_ingestion(record("a.txt"), "txt");
    let (stage, action) = advance(stage, FileEvent::Text { text: Some("one\n\ntwo".to_string()) });
    match &action {
        FileAction::Embed { texts } => assert_eq!(texts, &vec!["one\n\ntwo".to_string()]),
        other => panic!("unexpected action {:?}", other),
    }
    let (stage, action) = advance(stage, FileEvent::Vectors { count: 2 });
    assert!(matches!(stage, FileStage::Done));
    match action {
        FileAction::Finish { outcome: FileOutcome::Failed { reason } } => {
            assert_eq!(reason, "Número de embeddings (2) distinto al número de chunks (1)")
        }
        other => panic!("unexpected action {:?}", other),
    }
}

#[test]
fn outside_failure_fails_the_file() {
    let (stage, _) = begin_file_ingestion(record("a.txt"), "txt");
    let (stage, action) = advance(stage, FileEvent::Failed { reason: "timeout".to_string() });
    assert!(matches!(stage, FileStage::Done));
    match action {
        FileAction::Finish { outcome: FileOutcome::Failed { reason } } => assert_eq!(reason, "timeout"),
        other => panic!("unexpected action {:?}", other),
    }
}

#[test]
fn unexpected_event_fails_the_file() {
    let (stage, _) = begin_file_ingestion(record("a.txt"), "txt");
    let (_, action) = advance(stage, FileEvent::Committed);
    assert!(matches!(action, FileAction::Finish { outcome: FileOutcome::Failed { .. } }));
}

#[test]
fn whole_file_flow() {
    let big = "x".repeat(1000);
    let text = format!("{}\n\n{}", big, big);
    let (stage, _) = begin_file_ingestion(record("a.txt"), "txt");
    let (stage, action) = advance(stage, FileEvent::Text { text: Some(text) });
    match &action {
        FileAction::Embed { texts } => assert_eq!(texts.len(), 2),
        other => panic!("unexpected action {:?}", other),
    }
    let (stage, action) = advance(stage, FileEvent::Vectors { count: 2 });
    match &action {
        FileAction::Extract { index, text } => {
            assert_eq!(*index, 0);
            assert_eq!(text, &big);
        }
        other => panic!("unexpected action {:?}", other),
    }
    let found = ExtractionResult {
        entities: vec![JsonExtractedEntity { id: "X".to_string(), label: "Concept".to_string() }],
        relations: vec![],
    };
    let (stage, action) = advance(stage, FileEvent::Extraction { result: found.clone() });
    assert!(matches!(action, FileAction::Extract { index: 1, .. }));
    let (stage, action) = advance(stage, FileEvent::Extraction { result: found });
    let plan = match action {
        FileAction::Write { plan } => plan,
        other => panic!("unexpected action {:?}", other),
    };
    // file, document, two chunks, one link, one entity, two mentions
    assert_eq!(plan.writes.len(), 8);
    assert!(matches!(&plan.writes[4], GraphWrite::LinkNextChunk { .. }));
    assert_eq!((plan.entities_count, plan.relations_count), (1, 0));
    let (stage, action) = advance(stage, FileEvent::Committed);
    assert!(matches!(stage, FileStage::Done));
    assert!(matches!(
        action,
        FileAction::Finish { outcome: FileOutcome::Ingested { chunks: 2, entities: 1, relations: 0 } }
    ));
}
