use graph_rag::api::{graph_data_from_rows, GraphNode, RelationRow};
use graph_rag::config::{address_of, neo4j_address, AppConfig, ConfigError, LlmProvider};
use graph_rag::models::{order_tree_children, FileTreeNode};
use graph_rag::llm::{
    completion_context, extraction_json, recover_extraction, ExtractionResult, JsonExtractedEntity,
    LlmError, LlmManager,
};
use graph_rag::text::{decimal_text, join_strings, same_text, str_less};

fn s(x: &str) -> Option<String> {
    Some(x.to_string())
}

#[test]
fn provider_names_in_any_case() {
    assert_eq!(LlmProvider::from_str("OpenAI"), Ok(LlmProvider::OpenAI));
    assert_eq!(LlmProvider::from_str("GEMINI"), Ok(LlmProvider::Gemini));
    assert_eq!(LlmProvider::from_str("ollama"), Ok(LlmProvider::Ollama));
    assert_eq!(
        LlmProvider::from_str("Falcon"),
        Err(ConfigError::UnsupportedProvider { name: "falcon".to_string() })
    );
    assert_eq!(
        LlmProvider::from_lowercase_name("OpenAI"),
        Err(ConfigError::UnsupportedProvider { name: "OpenAI".to_string() })
    );
}

#[test]
fn configuration_defaults_and_missing_settings() {
    let cfg = AppConfig::from_values(s("neo4j://db:7687"), s("neo4j"), s("pw"), None, None, None, None).unwrap();
    assert_eq!(cfg.server_addr, "127.0.0.1:3322");
    assert_eq!(cfg.llm_provider, LlmProvider::OpenAI);
    assert_eq!(cfg.llm_embedding_model, "text-embedding-3-small");
    assert_eq!(cfg.llm_chat_model, "gpt-4o-mini");
    assert_eq!(cfg.neo4j_user, "neo4j");
    let missing = AppConfig::from_values(s("u"), None, None, None, None, None, None);
    assert_eq!(missing, Err(ConfigError::MissingVariable { name: "NEO4J_USER".to_string() }));
    let missing = AppConfig::from_values(None, s("u"), s("p"), None, None, None, None);
    assert_eq!(missing, Err(ConfigError::MissingVariable { name: "NEO4J_URI".to_string() }));
    let bad = AppConfig::from_values(s("u"), s("u"), s("p"), s("0.0.0.0:1"), s("Mistral"), s("e"), s("c"));
    assert_eq!(bad, Err(ConfigError::UnsupportedProvider { name: "mistral".to_string() }));
    let full = AppConfig::from_values(s("u"), s("u"), s("p"), s("0.0.0.0:1"), s("Gemini"), s("e"), s("c")).unwrap();
    assert_eq!(full.server_addr, "0.0.0.0:1");
    assert_eq!(full.llm_provider, LlmProvider::Gemini);
    assert_eq!((full.llm_embedding_model.as_str(), full.llm_chat_model.as_str()), ("e", "c"));
}

#[test]
fn graph_store_address_from_uri() {
    assert_eq!(neo4j_address("neo4j://db.example:7688"), Ok("db.example:7688".to_string()));
    assert_eq!(neo4j_address("bolt://graph"), Ok("graph:7687".to_string()));
    assert_eq!(neo4j_address("not a uri"), Err(ConfigError::InvalidUri));
    assert_eq!(address_of(None, None), "localhost:7687");
    assert_eq!(address_of(s("h"), Some(1)), "h:1");
}

#[test]
fn manager_from_configuration() {
    let cfg = AppConfig::from_values(s("u"), s("u"), s("p"), None, s("ollama"), s(""), s("my-chat")).unwrap();
    let m = LlmManager::from_config(&cfg).unwrap();
    assert_eq!(m.provider, LlmProvider::Ollama);
    assert_eq!(m.embedding_model_name(), "text-embedding-3-small");
    assert_eq!(m.chat_model_name(), "my-chat");
    assert_eq!(m.check_provider(), Err(LlmError::ProviderNotImplemented { provider: LlmProvider::Ollama }));
    let open = LlmManager { provider: LlmProvider::OpenAI, embedding_model: "emb".to_string(), chat_model: String::new() };
    assert_eq!(open.check_provider(), Ok(()));
    assert_eq!(open.embedding_model_name(), "emb");
    assert_eq!(open.chat_model_name(), "gpt-4o-mini");
}

#[test]
fn completion_context_layout() {
    assert_eq!(
        completion_context("¿Quién?", "ctx"),
        "Contexto:\nctx\n\nPregunta del usuario:\n¿Quién?"
    );
}

#[test]
fn extraction_reply_is_unfenced() {
    assert_eq!(extraction_json("  ```json\n{\"entities\": []}\n```  "), "{\"entities\": []}");
    assert_eq!(extraction_json("{\"a\":1}"), "{\"a\":1}");
    assert_eq!(extraction_json("```json```json {} ``````"), "{}");
    assert_eq!(extraction_json("   "), "");
}

#[test]
fn unreadable_extraction_becomes_empty() {
    let e = recover_extraction(None);
    assert!(e.entities.is_empty() && e.relations.is_empty());
    let some = ExtractionResult {
        entities: vec![JsonExtractedEntity { id: "A".to_string(), label: "Concept".to_string() }],
        relations: vec![],
    };
    assert_eq!(recover_extraction(Some(some.clone())), some);
}

#[test]
fn text_helpers() {
    assert_eq!(decimal_text(0), "0");
    assert_eq!(decimal_text(1200), "1200");
    assert_eq!(decimal_text(u64::MAX), "18446744073709551615");
    assert_eq!(join_strings(&vec!["a".to_string(), "b".to_string(), "c".to_string()], ", "), "a, b, c");
    assert_eq!(join_strings(&Vec::new(), ", "), "");
    assert!(same_text("abc", "abc"));
    assert!(!same_text("abc", "abd"));
    assert!(str_less("abc", "abd"));
    assert!(str_less("ab", "abc"));
    assert!(!str_less("b", "a"));
    assert!(str_less("Z", "a"));
    assert!(str_less("z", "é"));
}

#[test]
fn graph_view_of_relations() {
    let rows = vec![
        RelationRow {
            source_id: "A".to_string(),
            source_group: s("Person"),
            relation: "KNOWS".to_string(),
            target_id: "B".to_string(),
            target_group: None,
        },
        RelationRow {
            source_id: "B".to_string(),
            source_group: s("Person"),
            relation: "KNOWS".to_string(),
            target_id: "A".to_string(),
            target_group: s("Concept"),
        },
    ];
    let data = graph_data_from_rows(&rows);
    assert_eq!(
        data.nodes,
        vec![
            GraphNode { id: "A".to_string(), label: "A".to_string(), group: "Person".to_string() },
            GraphNode { id: "B".to_string(), label: "B".to_string(), group: "Entity".to_string() },
        ]
    );
    assert_eq!(data.edges.len(), 2);
    assert_eq!(data.edges[1].source, "B");
    assert_eq!(data.edges[1].target, "A");
    assert_eq!(data.edges[1].label, "KNOWS");
}

#[test]
fn directory_entries_are_listed_directories_first() {
    let node = |name: &str, is_dir: bool| FileTreeNode {
        path: format!("/r/{}", name),
        name: name.to_string(),
        is_dir,
        children: Vec::new(),
    };
    let ordered = order_tree_children(vec![
        node("b.txt", false),
        node("zeta", true),
        node("a.txt", false),
        node("alpha", true),
        node("B.md", false),
    ]);
    let names: Vec<(&str, bool)> = ordered.iter().map(|n| (n.name.as_str(), n.is_dir)).collect();
    assert_eq!(
        names,
        vec![("alpha", true), ("zeta", true), ("B.md", false), ("a.txt", false), ("b.txt", false)]
    );
    assert!(order_tree_children(Vec::new()).is_empty());
}

#[test]
fn error_messages() {
    assert_eq!(
        ConfigError::MissingVariable { name: "NEO4J_USER".to_string() }.to_message(),
        "Falta NEO4J_USER en el entorno"
    );
    assert_eq!(
        ConfigError::UnsupportedProvider { name: "x".to_string() }.to_message(),
        "Proveedor LLM no soportado: x"
    );
    assert_eq!(ConfigError::InvalidUri.to_message(), "URI de Neo4j inválida");
    assert_eq!(
        LlmError::ProviderNotImplemented { provider: LlmProvider::Gemini }.to_message(),
        "Proveedor LLM Gemini aún no implementado"
    );
    assert_eq!(LlmProvider::Ollama.name(), "Ollama");
}
