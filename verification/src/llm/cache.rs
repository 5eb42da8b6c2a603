//! The local cache of model answers: one file per request.
use crate::json::{Json, JsonModel};
use crate::llm::openai::{AnswerModel, ChatCompletionResult};
use crate::llm::usage::ModelUsage;
use crate::paths;
use crate::text;
use vstd::prelude::*;

verus! {

/// A directory of answers, by the hash of the request.
#[derive(Debug)]
pub struct PromptCache {
    pub dir: String,
}

/// What one file of the cache holds.
#[derive(Debug)]
pub struct PromptCacheEntry {
    pub created_at_unix_ms: u128,
    pub message: Json,
    pub usage: ModelUsage,
}

/// What one file of the cache holds.
#[verifier::ext_equal]
pub struct EntryModel {
    pub created_at_unix_ms: u128,
    pub message: JsonModel,
    pub usage: ModelUsage,
}

impl DeepView for PromptCacheEntry {
    type V = EntryModel;

    open spec fn deep_view(&self) -> EntryModel {
        EntryModel {
            created_at_unix_ms: self.created_at_unix_ms,
            message: self.message@,
            usage: self.usage,
        }
    }
}

/// The entry that stores an answer.
pub open spec fn entry_for(answer: AnswerModel, now_ms: u128) -> EntryModel {
    EntryModel { created_at_unix_ms: now_ms, message: answer.message, usage: answer.usage }
}

/// The answer that an entry gives back.
pub open spec fn answer_from(entry: EntryModel) -> AnswerModel {
    AnswerModel { message: entry.message, usage: entry.usage, cached: true }
}

/// Storing an answer and looking it up gives the same message and usage,
/// marked as cached.
pub proof fn lemma_stored_answer_is_found(answer: AnswerModel, now_ms: u128)
    ensures
        answer_from(entry_for(answer, now_ms)) == (AnswerModel { cached: true, ..answer }),
{
}

/// What has to be written for an answer to be stored: the entry goes to the
/// temporary file first, which then takes the place of the other.
#[derive(Debug)]
pub struct StoreRequest {
    pub path: String,
    pub temp_path: String,
    pub entry: PromptCacheEntry,
}

/// The file of a key.
pub open spec fn entry_file(dir: Seq<char>, key: Seq<char>) -> Seq<char> {
    paths::path_joined(dir, key + ".json"@)
}

/// The file that is written before it takes the place of the file of a key.
pub open spec fn temp_file(dir: Seq<char>, key: Seq<char>) -> Seq<char> {
    if key.len() == 0 || key.last() == '/' {
        entry_file(dir, key) + ".json.tmp"@
    } else {
        entry_file(dir, key) + ".tmp"@
    }
}

impl PromptCache {
    /// The cache in the given directory.
    pub fn new(dir: &str) -> (r: PromptCache)
        ensures
            r.dir@ == dir@,
    {
        PromptCache { dir: text::owned(dir) }
    }

    /// The file of a key.
    pub fn entry_path(&self, key: &str) -> (r: String)
        ensures
            r@ == entry_file(self.dir@, key@),
    {
        let name = text::concat(key, ".json");
        paths::path_join(self.dir.as_str(), name.as_str())
    }

    /// The file that is written before it takes the place of the file of a key.
    pub fn temp_path(&self, key: &str) -> (r: String)
        ensures
            r@ == temp_file(self.dir@, key@),
    {
        let path = self.entry_path(key);
        let chars = text::chars_of(key);
        if chars.len() == 0 || chars[chars.len() - 1] == '/' {
            text::concat(path.as_str(), ".json.tmp")
        } else {
            text::concat(path.as_str(), ".tmp")
        }
    }

    /// What has to be written to store an answer.
    pub fn store(&self, key: &str, response: &ChatCompletionResult, now_ms: u128) -> (r:
        StoreRequest)
        ensures
            r.path@ == entry_file(self.dir@, key@),
            r.temp_path@ == temp_file(self.dir@, key@),
            r.entry.deep_view() == entry_for(response.deep_view(), now_ms),
    {
        StoreRequest {
            path: self.entry_path(key),
            temp_path: self.temp_path(key),
            entry: PromptCacheEntry {
                created_at_unix_ms: now_ms,
                message: response.message.clone(),
                usage: response.usage.clone(),
            },
        }
    }

    /// The answer that the file of a key gives, if there is one.
    pub fn lookup(&self, found: Option<PromptCacheEntry>) -> (r: Option<ChatCompletionResult>)
        ensures
            r.deep_view() == (match found.deep_view() {
                Some(entry) => Some(answer_from(entry)),
                None => None,
            }),
    {
        match found {
            Some(entry) => Some(
                ChatCompletionResult { message: entry.message, usage: entry.usage, cached: true },
            ),
            None => None,
        }
    }
}

/// Different keys have different files.
pub proof fn lemma_keys_have_own_files(dir: Seq<char>, key: Seq<char>, other: Seq<char>)
    requires
        key.len() > 0 ==> key[0] != '/',
        other.len() > 0 ==> other[0] != '/',
        entry_file(dir, key) == entry_file(dir, other),
    ensures
        key == other,
{
    reveal_strlit(".json");
    paths::lemma_names_have_own_files(dir, key, other, ".json"@);
}

/// An answer is written to a file of its own before it takes the place of the
/// other.
pub proof fn lemma_temporary_file_is_another(dir: Seq<char>, key: Seq<char>)
    ensures
        temp_file(dir, key) != entry_file(dir, key),
        text::begins_with(temp_file(dir, key), entry_file(dir, key)),
{
    reveal_strlit(".tmp");
    reveal_strlit(".json.tmp");
    let path = entry_file(dir, key);
    assert(temp_file(dir, key).len() > path.len());
    assert(temp_file(dir, key).take(path.len() as int) =~= path);
}

} // verus!
