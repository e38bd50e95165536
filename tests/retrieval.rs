use graph_rag::orchestrator::{advance_query, begin_query, QueryAction, QueryEvent, QueryStage};
use graph_rag::rag::{
    build_graph_context, compose_context, new_query_record, plan_retrieval, ChunkHit, ContextRow,
    RetrievalPlan, NO_INFORMATION_ANSWER,
};

fn row(a: &str, rel: Option<&str>, b: Option<&str>) -> ContextRow {
    ContextRow {
        entity1: Some(a.to_string()),
        rel_type: rel.map(|s| s.to_string()),
        entity2: b.map(|s| s.to_string()),
    }
}

#[test]
fn no_hits_give_the_fixed_answer() {
    match plan_retrieval(&Vec::new()) {
        RetrievalPlan::Answered { answer, key_entities } => {
            assert_eq!(
                answer,
                "No se encontró información relevante en los documentos para responder a esta pregunta."
            );
            assert_eq!(answer, NO_INFORMATION_ANSWER);
            assert!(key_entities.is_empty());
        }
        other => panic!("unexpected plan {:?}", other),
    }
}

#[test]
fn hits_are_expanded_in_order() {
    let hits = vec![
        ChunkHit { id: "c1".to_string(), text: "first".to_string() },
        ChunkHit { id: "c2".to_string(), text: "second".to_string() },
    ];
    match plan_retrieval(&hits) {
        RetrievalPlan::Expand { chunk_ids, document_context } => {
            assert_eq!(chunk_ids, vec!["c1".to_string(), "c2".to_string()]);
            assert_eq!(document_context, "first\n\n---\n\nsecond");
        }
        other => panic!("unexpected plan {:?}", other),
    }
}

#[test]
fn relation_between_two_chunks_entities_rendered_once() {
    // Both chunks mention X and Y; the undirected match returns the stored
    // relation X -> Y once from each end, for each chunk.
    let rows = vec![
        row("X", Some("RELATED"), Some("Y")),
        row("Y", Some("RELATED"), Some("X")),
        row("X", Some("RELATED"), Some("Y")),
        row("Y", Some("RELATED"), Some("X")),
    ];
    let (context, entities) = build_graph_context(&rows);
    assert_eq!(entities, vec!["X".to_string(), "Y".to_string()]);
    assert_eq!(context.matches("- X RELATED Y").count(), 1);
    assert!(!context.contains("- Y RELATED X"));
    assert_eq!(
        context,
        "Se han identificado los siguientes conceptos clave: X, Y.\n\nSe han encontrado estas relaciones entre ellos:\n- X RELATED Y"
    );
}

#[test]
fn relation_ends_are_ordered() {
    let rows = vec![row("beta", Some("USES"), Some("alpha"))];
    let (context, _) = build_graph_context(&rows);
    assert!(context.ends_with("- alpha USES beta"));
}

#[test]
fn entities_without_relations() {
    let rows = vec![row("Solo", None, None), row("Solo", None, None)];
    let (context, entities) = build_graph_context(&rows);
    assert_eq!(entities, vec!["Solo".to_string()]);
    assert_eq!(context, "Se han identificado los siguientes conceptos clave: Solo.\n");
}

#[test]
fn empty_graph_context() {
    let (context, entities) = build_graph_context(&Vec::new());
    assert!(context.is_empty());
    assert!(entities.is_empty());
}

#[test]
fn context_composition() {
    let docs = "doc text".to_string();
    assert_eq!(compose_context(&docs, &String::new()), "doc text");
    assert_eq!(
        compose_context(&docs, &"graph".to_string()),
        "**Información de Documentos:**\ndoc text\n\n**Conocimiento Relevante del Grafo:**\ngraph"
    );
}

#[test]
fn query_record_has_fresh_id_and_time() {
    let q = new_query_record("¿qué?");
    assert_eq!(q.question, "¿qué?");
    assert_eq!(q.id.len(), 36);
    assert_eq!(&q.id[8..9], "-");
    assert!(q.created_at.contains('T'));
    let q2 = new_query_record("¿qué?");
    assert_ne!(q.id, q2.id);
}

#[test]
fn question_with_no_match_never_reaches_the_model() {
    let (stage, action) = begin_query("¿Qué es X?");
    assert!(matches!(action, QueryAction::Search { ref question } if question == "¿Qué es X?"));
    let (stage, action) = advance_query(stage, QueryEvent::Hits { hits: Vec::new() });
    assert!(matches!(stage, QueryStage::Done));
    match action {
        QueryAction::Answer { answer, key_entities } => {
            assert_eq!(answer, NO_INFORMATION_ANSWER);
            assert!(key_entities.is_empty());
        }
        other => panic!("unexpected action {:?}", other),
    }
}

#[test]
fn question_flow_to_answer() {
    let (stage, _) = begin_query("q");
    let hits = vec![ChunkHit { id: "4:abc:1".to_string(), text: "X trabaja con Y".to_string() }];
    let (stage, action) = advance_query(stage, QueryEvent::Hits { hits });
    match &action {
        QueryAction::Expand { chunk_ids } => assert_eq!(chunk_ids, &vec!["4:abc:1".to_string()]),
        other => panic!("unexpected action {:?}", other),
    }
    let rows = vec![row("X", Some("WORKS_WITH"), Some("Y")), row("Y", Some("WORKS_WITH"), Some("X"))];
    let (stage, action) = advance_query(stage, QueryEvent::Rows { rows });
    match &action {
        QueryAction::Log { record } => assert_eq!(record.question, "q"),
        other => panic!("unexpected action {:?}", other),
    }
    let (stage, action) = advance_query(stage, QueryEvent::Logged { written: false });
    match &action {
        QueryAction::Complete { question, context } => {
            assert_eq!(question, "q");
            assert_eq!(
                context,
                "**Información de Documentos:**\nX trabaja con Y\n\n**Conocimiento Relevante del Grafo:**\nSe han identificado los siguientes conceptos clave: X, Y.\n\nSe han encontrado estas relaciones entre ellos:\n- X WORKS_WITH Y"
            );
        }
        other => panic!("unexpected action {:?}", other),
    }
    let (stage, action) = advance_query(stage, QueryEvent::Completed { answer: "respuesta".to_string() });
    assert!(matches!(stage, QueryStage::Done));
    match action {
        QueryAction::Answer { answer, key_entities } => {
            assert_eq!(answer, "respuesta");
            assert_eq!(key_entities, vec!["X".to_string(), "Y".to_string()]);
        }
        other => panic!("unexpected action {:?}", other),
    }
}

#[test]
fn failed_search_fails_the_question() {
    let (stage, _) = begin_query("q");
    let (_, action) = advance_query(stage, QueryEvent::Failed { reason: "sin conexión".to_string() });
    assert!(matches!(action, QueryAction::Fail { ref reason } if reason == "sin conexión"));
}
