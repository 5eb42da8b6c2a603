//! Settings: what is read from the environment and what holds by default.
use crate::text;
use vstd::prelude::*;

verus! {

/// How to reach the repository that posts are published to.
#[derive(Debug, Clone)]
pub struct GithubConfig {
    pub username: String,
    pub password: String,
    pub owner: String,
    pub repo: String,
    pub branch: String,
}

/// The environment variables of the publishing tools, as they were found.
pub struct GithubEnv {
    pub github_username: String,
    pub github_password: String,
    pub github_pages_branch: Option<String>,
    pub github_pages_owner: Option<String>,
}

/// The value, or a default where there is none.
pub open spec fn or_default(value: Option<Seq<char>>, default: Seq<char>) -> Seq<char> {
    match value {
        Some(v) => v,
        None => default,
    }
}

/// The value, or a default where there is none.
fn string_or(value: Option<String>, default: &str) -> (r: String)
    ensures
        r@ == or_default(value.deep_view(), default@),
{
    match value {
        Some(v) => v,
        None => text::owned(default),
    }
}

/// The number, or a default where there is none.
fn number_or(value: Option<usize>, default: usize) -> (r: usize)
    ensures
        r == (match value {
            Some(v) => v,
            None => default,
        }),
{
    match value {
        Some(v) => v,
        None => default,
    }
}

impl GithubConfig {
    /// The settings for the given environment. Pages belong to the account
    /// itself where no other owner is named, and live in the repository that
    /// bears the owner's name.
    pub fn from_env(env: GithubEnv) -> (r: GithubConfig)
        ensures
            r.username@ == env.github_username@,
            r.password@ == env.github_password@,
            r.owner@ == or_default(env.github_pages_owner.deep_view(), env.github_username@),
            r.repo@ == r.owner@ + ".github.io"@,
            r.branch@ == or_default(env.github_pages_branch.deep_view(), "main"@),
    {
        let owner = string_or(env.github_pages_owner, env.github_username.as_str());
        let repo = text::concat(owner.as_str(), ".github.io");
        GithubConfig {
            username: env.github_username,
            password: env.github_password,
            owner,
            repo,
            branch: string_or(env.github_pages_branch, "main"),
        }
    }
}

/// How to reach the language model, and what to keep of its answers.
#[derive(Debug, Clone)]
pub struct LlmConfig {
    pub api_key: String,
    pub base_url: String,
    pub model: String,
    pub write_model_audit_log: bool,
    pub model_audit_log_path: String,
    pub enable_prompt_cache: bool,
    pub prompt_cache_dir: String,
    pub context_compact: ContextCompactConfig,
}

/// When a conversation is compacted, and how much of its end stays.
#[derive(Debug, Clone)]
pub struct ContextCompactConfig {
    pub enabled: bool,
    pub auto_token_threshold: usize,
    pub auto_preserve_recent_messages: usize,
    pub transcript_dir: String,
}

/// The environment variables of the language model, as they were found.
pub struct LlmEnv {
    pub llm_api_key: String,
    pub llm_base_url: Option<String>,
    pub llm_model: Option<String>,
    pub llm_write_model_audit_log: Option<bool>,
    pub llm_model_audit_log_path: Option<String>,
    pub llm_enable_prompt_cache: Option<bool>,
    pub llm_prompt_cache_dir: Option<String>,
    pub llm_context_compact_enabled: Option<bool>,
    pub llm_auto_compact_token_threshold: Option<usize>,
    pub llm_auto_compact_preserve_recent_messages: Option<usize>,
    pub llm_context_compact_transcript_dir: Option<String>,
}

impl LlmConfig {
    /// The settings for the given environment. The base address loses its
    /// trailing slashes.
    pub fn from_env(env: LlmEnv) -> (r: LlmConfig)
        ensures
            r.api_key@ == env.llm_api_key@,
            r.base_url@ == text::trim_end_by(
                text::CharClass::One('/'),
                or_default(env.llm_base_url.deep_view(), "https://api.openai.com/v1"@),
            ),
            r.model@ == or_default(env.llm_model.deep_view(), "gpt-4.1-mini"@),
            r.write_model_audit_log == (env.llm_write_model_audit_log == Some(true)),
            r.model_audit_log_path@ == or_default(
                env.llm_model_audit_log_path.deep_view(),
                ".auditlog/llm_response_audit.json"@,
            ),
            r.enable_prompt_cache == (env.llm_enable_prompt_cache == Some(true)),
            r.prompt_cache_dir@ == or_default(
                env.llm_prompt_cache_dir.deep_view(),
                ".cache/prompt_cache"@,
            ),
            r.context_compact.enabled == (env.llm_context_compact_enabled != Some(false)),
            r.context_compact.auto_token_threshold == (
            match env.llm_auto_compact_token_threshold {
                Some(n) => n,
                None => 50_000usize,
            }),
            r.context_compact.auto_preserve_recent_messages == (
            match env.llm_auto_compact_preserve_recent_messages {
                Some(n) => n,
                None => 4usize,
            }),
            r.context_compact.transcript_dir@ == or_default(
                env.llm_context_compact_transcript_dir.deep_view(),
                ".transcripts"@,
            ),
    {
        let base_url = string_or(env.llm_base_url, "https://api.openai.com/v1");
        let write_model_audit_log = match env.llm_write_model_audit_log {
            Some(b) => b,
            None => false,
        };
        let enable_prompt_cache = match env.llm_enable_prompt_cache {
            Some(b) => b,
            None => false,
        };
        let enabled = match env.llm_context_compact_enabled {
            Some(b) => b,
            None => true,
        };
        LlmConfig {
            api_key: env.llm_api_key,
            base_url: text::trim_end_class(text::CharClass::One('/'), base_url.as_str()),
            model: string_or(env.llm_model, "gpt-4.1-mini"),
            write_model_audit_log,
            model_audit_log_path: string_or(
                env.llm_model_audit_log_path,
                ".auditlog/llm_response_audit.json",
            ),
            enable_prompt_cache,
            prompt_cache_dir: string_or(env.llm_prompt_cache_dir, ".cache/prompt_cache"),
            context_compact: ContextCompactConfig {
                enabled,
                auto_token_threshold: number_or(env.llm_auto_compact_token_threshold, 50_000),
                auto_preserve_recent_messages: number_or(
                    env.llm_auto_compact_preserve_recent_messages,
                    4,
                ),
                transcript_dir: string_or(env.llm_context_compact_transcript_dir, ".transcripts"),
            },
        }
    }
}

/// A value that is set stands, even an empty one; only where none is set does the
/// default.
pub proof fn lemma_set_values_stand(value: Seq<char>, default: Seq<char>)
    ensures
        or_default(Some(value), default) == value,
        or_default(None, default) == default,
{
}

} // verus!
