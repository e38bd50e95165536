//! Language-model collaborators: the extraction result shape, model
//! selection and the texts handed to the models.
use vstd::prelude::*;
use crate::chunker::{trim, trimmed_bounds};
use crate::config::{provider_text, AppConfig, LlmProvider, DEFAULT_CHAT_MODEL, DEFAULT_EMBEDDING_MODEL};
use crate::text::{append_str, chars_of, string_from_chars, string_of_range};

verus! {

/// An entity as the extraction model reports it.
#[derive(Clone, Debug, PartialEq, Eq)]
pub struct JsonExtractedEntity {
    pub id: String,
    pub label: String,
}

/// A subject-predicate-object fact as the extraction model reports it.
#[derive(Clone, Debug, PartialEq, Eq)]
pub struct JsonExtractedRelation {
    pub subject: String,
    pub predicate: String,
    pub object: String,
}

/// What the extraction model found in one chunk.
#[derive(Clone, Debug, PartialEq, Eq)]
pub struct ExtractionResult {
    pub entities: Vec<JsonExtractedEntity>,
    pub relations: Vec<JsonExtractedRelation>,
}

impl Default for ExtractionResult {
    /// The empty result, used when the model's output cannot be read.
    fn default() -> (r: Self)
        ensures
            r.entities@.len() == 0,
            r.relations@.len() == 0,
    {
        ExtractionResult { entities: Vec::new(), relations: Vec::new() }
    }
}

/// Handles requests to the configured language-model provider.
#[derive(Clone, Debug, PartialEq, Eq)]
pub struct LlmManager {
    pub provider: LlmProvider,
    pub embedding_model: String,
    pub chat_model: String,
}

/// Why a model request cannot be made.
#[derive(Clone, Copy, Debug, PartialEq, Eq, Structural)]
pub enum LlmError {
    /// Requests to this provider are not implemented.
    ProviderNotImplemented { provider: LlmProvider },
}

impl LlmError {
    /// The error in words.
    pub open spec fn message_text(&self) -> Seq<char> {
        match self {
            LlmError::ProviderNotImplemented { provider } => "Proveedor LLM "@ + provider_text(*provider)
                + " aún no implementado"@,
        }
    }

    /// The error in words.
    pub fn to_message(&self) -> (r: String)
        ensures
            r@ == self.message_text(),
    {
        let mut out: Vec<char> = Vec::new();
        match self {
            LlmError::ProviderNotImplemented { provider } => {
                append_str(&mut out, "Proveedor LLM ");
                append_str(&mut out, provider.name().as_str());
                append_str(&mut out, " aún no implementado");
            },
        }
        string_from_chars(out.as_slice())
    }
}

/// A configured model name, or the default one where it is empty.
pub open spec fn model_or(name: Seq<char>, default: Seq<char>) -> Seq<char> {
    if name.len() == 0 {
        default
    } else {
        name
    }
}

impl LlmManager {
    /// The manager for the provider and models of `cfg`.
    pub fn from_config(cfg: &AppConfig) -> (r: Result<Self, LlmError>)
        ensures
            r is Ok,
            r->Ok_0.provider == cfg.llm_provider,
            r->Ok_0.embedding_model == cfg.llm_embedding_model,
            r->Ok_0.chat_model == cfg.llm_chat_model,
    {
        Ok(LlmManager {
            provider: cfg.llm_provider,
            embedding_model: cfg.llm_embedding_model.clone(),
            chat_model: cfg.llm_chat_model.clone(),
        })
    }

    /// Embedding and chat requests are implemented for OpenAI only.
    pub fn check_provider(&self) -> (r: Result<(), LlmError>)
        ensures
            self.provider == LlmProvider::OpenAI <==> r is Ok,
            r is Err ==> r == Err::<(), LlmError>(LlmError::ProviderNotImplemented { provider: self.provider }),
    {
        match self.provider {
            LlmProvider::OpenAI => Ok(()),
            other => Err(LlmError::ProviderNotImplemented { provider: other }),
        }
    }

    /// The embedding model to ask.
    pub fn embedding_model_name(&self) -> (r: String)
        ensures
            r@ == model_or(self.embedding_model@, DEFAULT_EMBEDDING_MODEL@),
    {
        if self.embedding_model.as_str().is_empty() {
            DEFAULT_EMBEDDING_MODEL.to_owned()
        } else {
            self.embedding_model.clone()
        }
    }

    /// The chat model to ask.
    pub fn chat_model_name(&self) -> (r: String)
        ensures
            r@ == model_or(self.chat_model@, DEFAULT_CHAT_MODEL@),
    {
        if self.chat_model.as_str().is_empty() {
            DEFAULT_CHAT_MODEL.to_owned()
        } else {
            self.chat_model.clone()
        }
    }
}

/// The context block given to the completion model with a question.
pub open spec fn completion_context_text(question: Seq<char>, context: Seq<char>) -> Seq<char> {
    "Contexto:\n"@ + context + "\n\nPregunta del usuario:\n"@ + question
}

/// The context block given to the completion model with a question.
pub fn completion_context(question: &str, context: &str) -> (r: String)
    ensures
        r@ == completion_context_text(question@, context@),
{
    let mut out: Vec<char> = Vec::new();
    append_str(&mut out, "Contexto:\n");
    append_str(&mut out, context);
    append_str(&mut out, "\n\nPregunta del usuario:\n");
    append_str(&mut out, question);
    string_from_chars(out.as_slice())
}

/// `s` with every leading copy of `p` removed.
pub open spec fn strip_prefixes(s: Seq<char>, p: Seq<char>) -> Seq<char>
    decreases s.len(),
{
    if p.len() > 0 && s.len() >= p.len() && s.subrange(0, p.len() as int) == p {
        strip_prefixes(s.subrange(p.len() as int, s.len() as int), p)
    } else {
        s
    }
}

/// `s` with every trailing copy of `p` removed.
pub open spec fn strip_suffixes(s: Seq<char>, p: Seq<char>) -> Seq<char>
    decreases s.len(),
{
    if p.len() > 0 && s.len() >= p.len() && s.subrange(s.len() - p.len(), s.len() as int) == p {
        strip_suffixes(s.subrange(0, s.len() - p.len()), p)
    } else {
        s
    }
}

/// The JSON part of the extraction model's reply: trimmed, without the
/// code fences the model may put around it.
pub open spec fn extraction_json_text(reply: Seq<char>) -> Seq<char> {
    trim(strip_suffixes(strip_prefixes(trim(reply), "```json"@), "```"@))
}

fn matches_at(v: &Vec<char>, i: usize, pat: &Vec<char>) -> (r: bool)
    requires
        i + pat.len() <= v.len(),
    ensures
        r == (v@.subrange(i as int, i + pat.len()) == pat@),
{
    let mut k: usize = 0;
    while k < pat.len()
        invariant
            k <= pat.len(),
            i + pat.len() <= v.len(),
            forall|m: int| 0 <= m < k ==> v@[i + m] == pat@[m],
        decreases pat.len() - k,
    {
        if v[i + k] != pat[k] {
            assert(v@.subrange(i as int, i + pat.len())[k as int] != pat@[k as int]);
            return false;
        }
        k = k + 1;
    }
    assert(v@.subrange(i as int, i + pat.len()) =~= pat@);
    true
}

/// The JSON part of the extraction model's reply.
pub fn extraction_json(reply: &str) -> (r: String)
    ensures
        r@ == extraction_json_text(reply@),
{
    let v = chars_of(reply);
    let open_fence = chars_of("```json");
    let close_fence = chars_of("```");
    let (a, b) = trimmed_bounds(&v, 0, v.len());
    proof {
        assert(v@.subrange(0, v.len() as int) =~= reply@);
        reveal_strlit("```json");
        reveal_strlit("```");
    }
    let mut lo: usize = a;
    while b - lo >= open_fence.len() && matches_at(&v, lo, &open_fence)
        invariant
            a <= lo <= b <= v.len(),
            open_fence@ == "```json"@,
            open_fence@.len() == 7,
            strip_prefixes(trim(reply@), "```json"@) == strip_prefixes(v@.subrange(lo as int, b as int), "```json"@),
        decreases b - lo,
    {
        assert(v@.subrange(lo as int, b as int).subrange(0, 7) =~= v@.subrange(lo as int, lo + 7));
        assert(v@.subrange(lo as int, b as int).subrange(7, (b - lo) as int) =~= v@.subrange(lo + 7, b as int));
        lo = lo + open_fence.len();
    }
    proof {
        if b - lo >= 7 {
            assert(v@.subrange(lo as int, b as int).subrange(0, 7) =~= v@.subrange(lo as int, lo + 7));
        }
    }
    let mut hi: usize = b;
    while hi - lo >= close_fence.len() && matches_at(&v, hi - close_fence.len(), &close_fence)
        invariant
            a <= lo <= hi <= b <= v.len(),
            close_fence@ == "```"@,
            close_fence@.len() == 3,
            strip_suffixes(strip_prefixes(trim(reply@), "```json"@), "```"@) == strip_suffixes(
                v@.subrange(lo as int, hi as int),
                "```"@,
            ),
        decreases hi - lo,
    {
        let ghost w = v@.subrange(lo as int, hi as int);
        assert(w.subrange(w.len() - 3, w.len() as int) =~= v@.subrange(hi - 3, hi as int));
        assert(w.subrange(0, w.len() - 3) =~= v@.subrange(lo as int, hi - 3));
        hi = hi - close_fence.len();
    }
    proof {
        let w = v@.subrange(lo as int, hi as int);
        if hi - lo >= 3 {
            assert(w.subrange(w.len() - 3, w.len() as int) =~= v@.subrange(hi - 3, hi as int));
        }
    }
    let (x, y) = trimmed_bounds(&v, lo, hi);
    string_of_range(&v, x, y)
}

/// The extraction to use for a chunk: what was read from the model's reply,
/// or the empty extraction where the reply could not be read.
pub fn recover_extraction(parsed: Option<ExtractionResult>) -> (r: ExtractionResult)
    ensures
        match parsed {
            Some(p) => r == p,
            None => r.entities@.len() == 0 && r.relations@.len() == 0,
        },
{
    match parsed {
        Some(p) => p,
        None => ExtractionResult::default(),
    }
}

} // verus!
