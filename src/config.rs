//! Application configuration: the graph store's address and the language
//! model provider, read from named settings with defaults.
use vstd::prelude::*;
use crate::foreign::{lowercase, lower_of, parse_authority, uri_authority};
use crate::text::{append_str, decimal, decimal_text, same_text, string_from_chars};

verus! {

/// The providers of language models the configuration can name.
#[derive(Clone, Copy, Debug, PartialEq, Eq, Structural)]
pub enum LlmProvider {
    OpenAI,
    Gemini,
    Ollama,
}

/// Why a configuration cannot be built.
#[derive(Clone, Debug, PartialEq, Eq)]
pub enum ConfigError {
    /// A required setting is absent.
    MissingVariable { name: String },
    /// The provider name is none of the known ones (lower-cased).
    UnsupportedProvider { name: String },
    /// The graph store URI does not parse.
    InvalidUri,
}

/// Complete configuration of the application.
#[derive(Clone, Debug, PartialEq, Eq)]
pub struct AppConfig {
    pub neo4j_uri: String,
    pub neo4j_user: String,
    pub neo4j_password: String,
    pub server_addr: String,
    pub llm_provider: LlmProvider,
    pub llm_embedding_model: String,
    pub llm_chat_model: String,
}

pub const DEFAULT_SERVER_ADDR: &'static str = "127.0.0.1:3322";
pub const DEFAULT_PROVIDER: &'static str = "openai";
pub const DEFAULT_EMBEDDING_MODEL: &'static str = "text-embedding-3-small";
pub const DEFAULT_CHAT_MODEL: &'static str = "gpt-4o-mini";
pub const DEFAULT_GRAPH_HOST: &'static str = "localhost";
pub const DEFAULT_GRAPH_PORT: u16 = 7687;

/// The provider a lower-case name denotes.
pub open spec fn provider_named(s: Seq<char>) -> Option<LlmProvider> {
    if s == "openai"@ {
        Some(LlmProvider::OpenAI)
    } else if s == "gemini"@ {
        Some(LlmProvider::Gemini)
    } else if s == "ollama"@ {
        Some(LlmProvider::Ollama)
    } else {
        None
    }
}

/// The outcome of reading a provider from a lower-case name.
pub open spec fn provider_result(s: Seq<char>, r: Result<LlmProvider, ConfigError>) -> bool {
    match provider_named(s) {
        Some(p) => r == Ok::<LlmProvider, ConfigError>(p),
        None => match r {
            Err(ConfigError::UnsupportedProvider { name }) => name@ == s,
            _ => false,
        },
    }
}

impl LlmProvider {
    /// The provider a lower-case name denotes.
    pub fn from_lowercase_name(s: &str) -> (r: Result<Self, ConfigError>)
        ensures
            provider_result(s@, r),
    {
        if same_text(s, "openai") {
            Ok(LlmProvider::OpenAI)
        } else if same_text(s, "gemini") {
            Ok(LlmProvider::Gemini)
        } else if same_text(s, "ollama") {
            Ok(LlmProvider::Ollama)
        } else {
            Err(ConfigError::UnsupportedProvider { name: s.to_owned() })
        }
    }

    /// The provider a name denotes, in any letter case.
    pub fn from_str(s: &str) -> (r: Result<Self, ConfigError>)
        ensures
            provider_result(lower_of(s@), r),
    {
        let lower = lowercase(s);
        Self::from_lowercase_name(lower.as_str())
    }
}

/// The `host:port` address of the graph store, with the default host and
/// port where the URI names none.
pub open spec fn address_text(host: Option<Seq<char>>, port: Option<u16>) -> Seq<char> {
    let h = match host {
        Some(h) => h,
        None => DEFAULT_GRAPH_HOST@,
    };
    let p = match port {
        Some(p) => p,
        None => DEFAULT_GRAPH_PORT,
    };
    h + seq![':'] + decimal(p as nat)
}

/// The `host:port` address for a host and port read from a URI.
pub fn address_of(host: Option<String>, port: Option<u16>) -> (r: String)
    ensures
        r@ == address_text(
            match host {
                Some(h) => Some(h@),
                None => None,
            },
            port,
        ),
{
    let mut out: Vec<char> = Vec::new();
    match host {
        Some(h) => append_str(&mut out, h.as_str()),
        None => append_str(&mut out, DEFAULT_GRAPH_HOST),
    }
    out.push(':');
    let p: u16 = match port {
        Some(p) => p,
        None => DEFAULT_GRAPH_PORT,
    };
    let digits = decimal_text(p as u64);
    append_str(&mut out, digits.as_str());
    string_from_chars(out.as_slice())
}

/// The address to connect to the graph store named by `uri`.
pub fn neo4j_address(uri: &str) -> (r: Result<String, ConfigError>)
    ensures
        match uri_authority(uri@) {
            None => r == Err::<String, ConfigError>(ConfigError::InvalidUri),
            Some((h, p)) => r is Ok && r->Ok_0@ == address_text(h, p),
        },
{
    match parse_authority(uri) {
        Ok((host, port)) => Ok(address_of(host, port)),
        Err(_) => Err(ConfigError::InvalidUri),
    }
}

fn required(value: Option<String>, name: &str) -> (r: Result<String, ConfigError>)
    ensures
        match value {
            Some(v) => r == Ok::<String, ConfigError>(v),
            None => match r {
                Err(ConfigError::MissingVariable { name: n }) => n@ == name@,
                _ => false,
            },
        },
{
    match value {
        Some(v) => Ok(v),
        None => Err(ConfigError::MissingVariable { name: name.to_owned() }),
    }
}

fn or_default(value: Option<String>, default: &str) -> (r: String)
    ensures
        r@ == match value {
            Some(v) => v@,
            None => default@,
        },
{
    match value {
        Some(v) => v,
        None => default.to_owned(),
    }
}

/// The text of an optional setting, or its default.
pub open spec fn setting(value: Option<String>, default: Seq<char>) -> Seq<char> {
    match value {
        Some(v) => v@,
        None => default,
    }
}

impl AppConfig {
    /// Builds the configuration from the settings `NEO4J_URI`,
    /// `NEO4J_USER`, `NEO4J_PASSWORD` (required, checked in that order),
    /// `SERVER_ADDR`, `LLM_PROVIDER`, `LLM_EMBEDDING_MODEL` and
    /// `LLM_CHAT_MODEL` (defaulted).
    pub fn from_values(
        neo4j_uri: Option<String>,
        neo4j_user: Option<String>,
        neo4j_password: Option<String>,
        server_addr: Option<String>,
        llm_provider: Option<String>,
        llm_embedding_model: Option<String>,
        llm_chat_model: Option<String>,
    ) -> (r: Result<AppConfig, ConfigError>)
        ensures
            neo4j_uri is None ==> match r {
                Err(ConfigError::MissingVariable { name }) => name@ == "NEO4J_URI"@,
                _ => false,
            },
            neo4j_uri is Some && neo4j_user is None ==> match r {
                Err(ConfigError::MissingVariable { name }) => name@ == "NEO4J_USER"@,
                _ => false,
            },
            neo4j_uri is Some && neo4j_user is Some && neo4j_password is None ==> match r {
                Err(ConfigError::MissingVariable { name }) => name@ == "NEO4J_PASSWORD"@,
                _ => false,
            },
            neo4j_uri is Some && neo4j_user is Some && neo4j_password is Some ==> {
                let pname = lower_of(setting(llm_provider, DEFAULT_PROVIDER@));
                match provider_named(pname) {
                    None => match r {
                        Err(ConfigError::UnsupportedProvider { name }) => name@ == pname,
                        _ => false,
                    },
                    Some(p) => match r {
                        Ok(c) => c.neo4j_uri == neo4j_uri->0 && c.neo4j_user == neo4j_user->0
                            && c.neo4j_password == neo4j_password->0 && c.server_addr@ == setting(
                            server_addr,
                            DEFAULT_SERVER_ADDR@,
                        ) && c.llm_provider == p && c.llm_embedding_model@ == setting(
                            llm_embedding_model,
                            DEFAULT_EMBEDDING_MODEL@,
                        ) && c.llm_chat_model@ == setting(llm_chat_model, DEFAULT_CHAT_MODEL@),
                        Err(_) => false,
                    },
                }
            },
    {
        let neo4j_uri = match required(neo4j_uri, "NEO4J_URI") {
            Ok(v) => v,
            Err(e) => return Err(e),
        };
        let neo4j_user = match required(neo4j_user, "NEO4J_USER") {
            Ok(v) => v,
            Err(e) => return Err(e),
        };
        let neo4j_password = match required(neo4j_password, "NEO4J_PASSWORD") {
            Ok(v) => v,
            Err(e) => return Err(e),
        };
        let server_addr = or_default(server_addr, DEFAULT_SERVER_ADDR);
        let provider_name = or_default(llm_provider, DEFAULT_PROVIDER);
        let llm_provider = match LlmProvider::from_str(provider_name.as_str()) {
            Ok(p) => p,
            Err(e) => return Err(e),
        };
        let llm_embedding_model = or_default(llm_embedding_model, DEFAULT_EMBEDDING_MODEL);
        let llm_chat_model = or_default(llm_chat_model, DEFAULT_CHAT_MODEL);
        Ok(AppConfig {
            neo4j_uri,
            neo4j_user,
            neo4j_password,
            server_addr,
            llm_provider,
            llm_embedding_model,
            llm_chat_model,
        })
    }
}

impl ConfigError {
    /// The error in words.
    pub open spec fn message_text(&self) -> Seq<char> {
        match self {
            ConfigError::MissingVariable { name } => "Falta "@ + name@ + " en el entorno"@,
            ConfigError::UnsupportedProvider { name } => "Proveedor LLM no soportado: "@ + name@,
            ConfigError::InvalidUri => "URI de Neo4j inválida"@,
        }
    }

    /// The error in words.
    pub fn to_message(&self) -> (r: String)
        ensures
            r@ == self.message_text(),
    {
        let mut out: Vec<char> = Vec::new();
        match self {
            ConfigError::MissingVariable { name } => {
                append_str(&mut out, "Falta ");
                append_str(&mut out, name.as_str());
                append_str(&mut out, " en el entorno");
            },
            ConfigError::UnsupportedProvider { name } => {
                append_str(&mut out, "Proveedor LLM no soportado: ");
                append_str(&mut out, name.as_str());
            },
            ConfigError::InvalidUri => append_str(&mut out, "URI de Neo4j inválida"),
        }
        string_from_chars(out.as_slice())
    }
}

/// The name of a provider.
pub open spec fn provider_text(p: LlmProvider) -> Seq<char> {
    match p {
        LlmProvider::OpenAI => "OpenAI"@,
        LlmProvider::Gemini => "Gemini"@,
        LlmProvider::Ollama => "Ollama"@,
    }
}

impl LlmProvider {
    /// The name of the provider.
    pub fn name(&self) -> (r: String)
        ensures
            r@ == provider_text(*self),
    {
        match self {
            LlmProvider::OpenAI => "OpenAI".to_owned(),
            LlmProvider::Gemini => "Gemini".to_owned(),
            LlmProvider::Ollama => "Ollama".to_owned(),
        }
    }
}

} // verus!
