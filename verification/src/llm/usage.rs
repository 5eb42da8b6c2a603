//! What the model reports of the tokens that a call used, and the totals.
use crate::text;
use vstd::prelude::*;

verus! {

/// The tokens of one model call.
#[derive(Debug, PartialEq, Eq, Structural)]
pub struct ModelUsage {
    pub input_tokens: u64,
    pub output_tokens: u64,
    pub prompt_tokens: u64,
    pub completion_tokens: u64,
    pub total_tokens: u64,
    pub cache_creation_input_tokens: u64,
    pub cache_read_input_tokens: u64,
    pub prompt_cache_hit_tokens: u64,
    pub prompt_cache_miss_tokens: u64,
}

impl Clone for ModelUsage {
    fn clone(&self) -> (r: ModelUsage)
        ensures
            r == *self,
    {
        ModelUsage {
            input_tokens: self.input_tokens,
            output_tokens: self.output_tokens,
            prompt_tokens: self.prompt_tokens,
            completion_tokens: self.completion_tokens,
            total_tokens: self.total_tokens,
            cache_creation_input_tokens: self.cache_creation_input_tokens,
            cache_read_input_tokens: self.cache_read_input_tokens,
            prompt_cache_hit_tokens: self.prompt_cache_hit_tokens,
            prompt_cache_miss_tokens: self.prompt_cache_miss_tokens,
        }
    }
}

/// A call that used nothing.
pub open spec fn no_usage() -> ModelUsage {
    ModelUsage {
        input_tokens: 0,
        output_tokens: 0,
        prompt_tokens: 0,
        completion_tokens: 0,
        total_tokens: 0,
        cache_creation_input_tokens: 0,
        cache_read_input_tokens: 0,
        prompt_cache_hit_tokens: 0,
        prompt_cache_miss_tokens: 0,
    }
}

impl Default for ModelUsage {
    fn default() -> (r: ModelUsage)
        ensures
            r == no_usage(),
    {
        ModelUsage {
            input_tokens: 0,
            output_tokens: 0,
            prompt_tokens: 0,
            completion_tokens: 0,
            total_tokens: 0,
            cache_creation_input_tokens: 0,
            cache_read_input_tokens: 0,
            prompt_cache_hit_tokens: 0,
            prompt_cache_miss_tokens: 0,
        }
    }
}

impl ModelUsage {
    /// The tokens that came out of the provider's cache.
    pub open spec fn hits(self) -> int {
        self.cache_read_input_tokens + self.prompt_cache_hit_tokens
    }

    /// The tokens that went into the provider's cache.
    pub open spec fn misses(self) -> int {
        self.cache_creation_input_tokens + self.prompt_cache_miss_tokens
    }

    /// The sums of this usage can be counted.
    pub open spec fn countable(self) -> bool {
        &&& self.hits() <= u64::MAX
        &&& self.misses() <= u64::MAX
        &&& self.input_tokens + self.prompt_tokens <= u64::MAX
        &&& self.output_tokens + self.completion_tokens <= u64::MAX
    }

    /// Whether the sums of this usage can be counted.
    pub fn is_countable(&self) -> (r: bool)
        ensures
            r == self.countable(),
    {
        self.cache_read_input_tokens.checked_add(self.prompt_cache_hit_tokens).is_some()
            && self.cache_creation_input_tokens.checked_add(
            self.prompt_cache_miss_tokens,
        ).is_some() && self.input_tokens.checked_add(self.prompt_tokens).is_some()
            && self.output_tokens.checked_add(self.completion_tokens).is_some()
    }

    /// The tokens that came out of the provider's cache.
    pub fn cache_hit_tokens(&self) -> (r: u64)
        requires
            self.hits() <= u64::MAX,
        ensures
            r == self.hits(),
    {
        self.cache_read_input_tokens + self.prompt_cache_hit_tokens
    }

    /// The tokens that went into the provider's cache.
    pub fn cache_miss_tokens(&self) -> (r: u64)
        requires
            self.misses() <= u64::MAX,
        ensures
            r == self.misses(),
    {
        self.cache_creation_input_tokens + self.prompt_cache_miss_tokens
    }

    /// Whether the provider said anything about its cache.
    pub fn has_cache_telemetry(&self) -> (r: bool)
        requires
            self.hits() <= u64::MAX,
            self.misses() <= u64::MAX,
        ensures
            r == (self.hits() > 0 || self.misses() > 0),
    {
        self.cache_hit_tokens() > 0 || self.cache_miss_tokens() > 0
    }
}

/// The totals over all model calls of a conversation.
#[derive(Debug, PartialEq, Eq, Structural)]
pub struct PromptCacheStats {
    pub total_model_calls: u64,
    pub total_input_tokens: u64,
    pub total_output_tokens: u64,
    pub total_cache_creation_input_tokens: u64,
    pub total_cache_read_input_tokens: u64,
    pub total_prompt_cache_hit_tokens: u64,
    pub total_prompt_cache_miss_tokens: u64,
    pub total_local_cache_hits: u64,
    pub last_local_cache_hit: bool,
    pub last_usage: ModelUsage,
}

impl Clone for PromptCacheStats {
    fn clone(&self) -> (r: PromptCacheStats)
        ensures
            r == *self,
    {
        PromptCacheStats {
            total_model_calls: self.total_model_calls,
            total_input_tokens: self.total_input_tokens,
            total_output_tokens: self.total_output_tokens,
            total_cache_creation_input_tokens: self.total_cache_creation_input_tokens,
            total_cache_read_input_tokens: self.total_cache_read_input_tokens,
            total_prompt_cache_hit_tokens: self.total_prompt_cache_hit_tokens,
            total_prompt_cache_miss_tokens: self.total_prompt_cache_miss_tokens,
            total_local_cache_hits: self.total_local_cache_hits,
            last_local_cache_hit: self.last_local_cache_hit,
            last_usage: self.last_usage.clone(),
        }
    }
}

/// The totals before the first call.
pub open spec fn no_calls() -> PromptCacheStats {
    PromptCacheStats {
        total_model_calls: 0,
        total_input_tokens: 0,
        total_output_tokens: 0,
        total_cache_creation_input_tokens: 0,
        total_cache_read_input_tokens: 0,
        total_prompt_cache_hit_tokens: 0,
        total_prompt_cache_miss_tokens: 0,
        total_local_cache_hits: 0,
        last_local_cache_hit: false,
        last_usage: no_usage(),
    }
}

impl Default for PromptCacheStats {
    fn default() -> (r: PromptCacheStats)
        ensures
            r == no_calls(),
    {
        PromptCacheStats {
            total_model_calls: 0,
            total_input_tokens: 0,
            total_output_tokens: 0,
            total_cache_creation_input_tokens: 0,
            total_cache_read_input_tokens: 0,
            total_prompt_cache_hit_tokens: 0,
            total_prompt_cache_miss_tokens: 0,
            total_local_cache_hits: 0,
            last_local_cache_hit: false,
            last_usage: ModelUsage::default(),
        }
    }
}

/// The totals with one more call.
pub open spec fn recorded(stats: PromptCacheStats, usage: ModelUsage) -> PromptCacheStats {
    PromptCacheStats {
        total_model_calls: (stats.total_model_calls + 1) as u64,
        total_input_tokens: (stats.total_input_tokens + usage.input_tokens
            + usage.prompt_tokens) as u64,
        total_output_tokens: (stats.total_output_tokens + usage.output_tokens
            + usage.completion_tokens) as u64,
        total_cache_creation_input_tokens: (stats.total_cache_creation_input_tokens
            + usage.cache_creation_input_tokens) as u64,
        total_cache_read_input_tokens: (stats.total_cache_read_input_tokens
            + usage.cache_read_input_tokens) as u64,
        total_prompt_cache_hit_tokens: (stats.total_prompt_cache_hit_tokens
            + usage.prompt_cache_hit_tokens) as u64,
        total_prompt_cache_miss_tokens: (stats.total_prompt_cache_miss_tokens
            + usage.prompt_cache_miss_tokens) as u64,
        total_local_cache_hits: stats.total_local_cache_hits,
        last_local_cache_hit: false,
        last_usage: usage,
    }
}

impl PromptCacheStats {
    /// No total runs over when the usage is added.
    pub open spec fn has_room_for(self, usage: ModelUsage) -> bool {
        &&& self.total_model_calls < u64::MAX
        &&& self.total_input_tokens + usage.input_tokens + usage.prompt_tokens <= u64::MAX
        &&& self.total_output_tokens + usage.output_tokens + usage.completion_tokens <= u64::MAX
        &&& self.total_cache_creation_input_tokens + usage.cache_creation_input_tokens <= u64::MAX
        &&& self.total_cache_read_input_tokens + usage.cache_read_input_tokens <= u64::MAX
        &&& self.total_prompt_cache_hit_tokens + usage.prompt_cache_hit_tokens <= u64::MAX
        &&& self.total_prompt_cache_miss_tokens + usage.prompt_cache_miss_tokens <= u64::MAX
    }

    /// Whether no total runs over when the usage is added.
    pub fn can_record(&self, usage: &ModelUsage) -> (r: bool)
        ensures
            r == self.has_room_for(*usage),
    {
        let input = match self.total_input_tokens.checked_add(usage.input_tokens) {
            Some(n) => n.checked_add(usage.prompt_tokens).is_some(),
            None => false,
        };
        let output = match self.total_output_tokens.checked_add(usage.output_tokens) {
            Some(n) => n.checked_add(usage.completion_tokens).is_some(),
            None => false,
        };
        input && output && self.total_model_calls < u64::MAX
            && self.total_cache_creation_input_tokens.checked_add(
            usage.cache_creation_input_tokens,
        ).is_some() && self.total_cache_read_input_tokens.checked_add(
            usage.cache_read_input_tokens,
        ).is_some() && self.total_prompt_cache_hit_tokens.checked_add(
            usage.prompt_cache_hit_tokens,
        ).is_some() && self.total_prompt_cache_miss_tokens.checked_add(
            usage.prompt_cache_miss_tokens,
        ).is_some()
    }

    /// Adds a call that the model answered.
    pub fn record_usage(&mut self, usage: &ModelUsage)
        requires
            old(self).has_room_for(*usage),
        ensures
            *final(self) == recorded(*old(self), *usage),
    {
        self.total_model_calls = self.total_model_calls + 1;
        self.total_input_tokens = self.total_input_tokens + usage.input_tokens
            + usage.prompt_tokens;
        self.total_output_tokens = self.total_output_tokens + usage.output_tokens
            + usage.completion_tokens;
        self.total_cache_creation_input_tokens = self.total_cache_creation_input_tokens
            + usage.cache_creation_input_tokens;
        self.total_cache_read_input_tokens = self.total_cache_read_input_tokens
            + usage.cache_read_input_tokens;
        self.total_prompt_cache_hit_tokens = self.total_prompt_cache_hit_tokens
            + usage.prompt_cache_hit_tokens;
        self.total_prompt_cache_miss_tokens = self.total_prompt_cache_miss_tokens
            + usage.prompt_cache_miss_tokens;
        self.last_local_cache_hit = false;
        self.last_usage = usage.clone();
    }

    /// Adds a call that the local cache answered.
    pub fn record_local_cache_hit(&mut self)
        requires
            old(self).total_local_cache_hits < u64::MAX,
        ensures
            *final(self) == (PromptCacheStats {
                total_local_cache_hits: (old(self).total_local_cache_hits + 1) as u64,
                last_local_cache_hit: true,
                ..*old(self)
            }),
    {
        self.total_local_cache_hits = self.total_local_cache_hits + 1;
        self.last_local_cache_hit = true;
    }

    /// The tokens that came out of the provider's cache in all calls.
    pub open spec fn hits(self) -> int {
        self.total_cache_read_input_tokens + self.total_prompt_cache_hit_tokens
    }

    /// The tokens that went into the provider's cache in all calls.
    pub open spec fn misses(self) -> int {
        self.total_cache_creation_input_tokens + self.total_prompt_cache_miss_tokens
    }

    /// The sums that a summary shows can be counted.
    pub open spec fn countable(self) -> bool {
        &&& self.last_usage.hits() <= u64::MAX
        &&& self.last_usage.misses() <= u64::MAX
        &&& self.hits() <= u64::MAX
        &&& self.misses() <= u64::MAX
    }

    /// Whether the sums that a summary shows can be counted.
    pub fn is_countable(&self) -> (r: bool)
        ensures
            r == self.countable(),
    {
        self.last_usage.cache_read_input_tokens.checked_add(
            self.last_usage.prompt_cache_hit_tokens,
        ).is_some() && self.last_usage.cache_creation_input_tokens.checked_add(
            self.last_usage.prompt_cache_miss_tokens,
        ).is_some() && self.total_cache_read_input_tokens.checked_add(
            self.total_prompt_cache_hit_tokens,
        ).is_some() && self.total_cache_creation_input_tokens.checked_add(
            self.total_prompt_cache_miss_tokens,
        ).is_some()
    }

    /// The tokens that came out of the provider's cache in the last call.
    pub fn last_hit_tokens(&self) -> (r: u64)
        requires
            self.last_usage.hits() <= u64::MAX,
        ensures
            r == self.last_usage.hits(),
    {
        self.last_usage.cache_hit_tokens()
    }

    /// The tokens that went into the provider's cache in the last call.
    pub fn last_miss_tokens(&self) -> (r: u64)
        requires
            self.last_usage.misses() <= u64::MAX,
        ensures
            r == self.last_usage.misses(),
    {
        self.last_usage.cache_miss_tokens()
    }

    /// The tokens that came out of the provider's cache in all calls.
    pub fn total_hit_tokens(&self) -> (r: u64)
        requires
            self.hits() <= u64::MAX,
        ensures
            r == self.hits(),
    {
        self.total_cache_read_input_tokens + self.total_prompt_cache_hit_tokens
    }

    /// The tokens that went into the provider's cache in all calls.
    pub fn total_miss_tokens(&self) -> (r: u64)
        requires
            self.misses() <= u64::MAX,
        ensures
            r == self.misses(),
    {
        self.total_cache_creation_input_tokens + self.total_prompt_cache_miss_tokens
    }

    /// What a summary says of the local cache.
    pub open spec fn local_part(self) -> Seq<char> {
        if self.total_local_cache_hits > 0 {
            " local_cache_hits="@ + text::decimal(self.total_local_cache_hits as nat)
                + " last_local_cache_hit="@ + (if self.last_local_cache_hit {
                "true"@
            } else {
                "false"@
            })
        } else {
            seq![]
        }
    }

    /// The last call has a rate: tokens came out of the cache or went into it.
    pub open spec fn rates_last(self) -> bool {
        self.last_usage.hits() + self.last_usage.misses() > 0
    }

    /// All calls together have a rate: tokens came out of the cache or went into
    /// it.
    pub open spec fn rates_total(self) -> bool {
        self.hits() + self.misses() > 0
    }

    /// Whether the last call has a rate.
    pub fn has_last_rate(&self) -> (r: bool)
        ensures
            r == self.rates_last(),
    {
        self.last_usage.cache_read_input_tokens > 0 || self.last_usage.prompt_cache_hit_tokens > 0
            || self.last_usage.cache_creation_input_tokens > 0
            || self.last_usage.prompt_cache_miss_tokens > 0
    }

    /// Whether all calls together have a rate.
    pub fn has_total_rate(&self) -> (r: bool)
        ensures
            r == self.rates_total(),
    {
        self.total_cache_read_input_tokens > 0 || self.total_prompt_cache_hit_tokens > 0
            || self.total_cache_creation_input_tokens > 0 || self.total_prompt_cache_miss_tokens > 0
    }

    /// The summary of the totals, with the rates as they are shown. Where there is
    /// no rate it says so.
    pub open spec fn line(self, last_rate: Seq<char>, total_rate: Seq<char>) -> Seq<char> {
        let shown_last = if self.rates_last() {
            last_rate
        } else {
            "n/a"@
        };
        let shown_total = if self.rates_total() {
            total_rate
        } else {
            "n/a"@
        };
        if self.last_usage.hits() > 0 || self.last_usage.misses() > 0 || self.hits() > 0
            || self.misses() > 0 || self.total_local_cache_hits > 0 {
            "info: prompt cache stats: call_hit_tokens="@ + text::decimal(
                self.last_usage.hits() as nat,
            ) + " call_miss_tokens="@ + text::decimal(self.last_usage.misses() as nat)
                + " call_hit_rate="@ + shown_last + " total_hit_tokens="@ + text::decimal(
                self.hits() as nat,
            ) + " total_miss_tokens="@ + text::decimal(self.misses() as nat) + " total_hit_rate="@
                + shown_total + " total_model_calls="@ + text::decimal(
                self.total_model_calls as nat,
            ) + self.local_part() + self.local_part()
        } else {
            "info: prompt cache stats: model_calls="@ + text::decimal(
                self.total_model_calls as nat,
            ) + " (no cache telemetry returned yet)"@
        }
    }

    fn local_summary(&self) -> (r: String)
        ensures
            r@ == self.local_part(),
    {
        if self.total_local_cache_hits > 0 {
            let mut r = text::owned(" local_cache_hits=");
            r.append(text::decimal_of(self.total_local_cache_hits as u128).as_str());
            r.append(" last_local_cache_hit=");
            if self.last_local_cache_hit {
                r.append("true");
            } else {
                r.append("false");
            }
            r
        } else {
            let r = String::new();
            assert(r@ =~= seq![]);
            r
        }
    }

    /// The summary of the totals. The rates are given as they are to be shown where
    /// there are any.
    pub fn summary_line(&self, last_rate: &str, total_rate: &str) -> (r: String)
        requires
            self.countable(),
        ensures
            r@ == self.line(last_rate@, total_rate@),
    {
        let last_hit = self.last_hit_tokens();
        let last_miss = self.last_miss_tokens();
        let total_hit = self.total_hit_tokens();
        let total_miss = self.total_miss_tokens();
        if self.last_usage.has_cache_telemetry() || total_hit > 0 || total_miss > 0
            || self.total_local_cache_hits > 0 {
            let local_summary = self.local_summary();
            let shown_last = if self.has_last_rate() {
                last_rate
            } else {
                "n/a"
            };
            let shown_total = if self.has_total_rate() {
                total_rate
            } else {
                "n/a"
            };
            let mut r = text::owned("info: prompt cache stats: call_hit_tokens=");
            r.append(text::decimal_of(last_hit as u128).as_str());
            r.append(" call_miss_tokens=");
            r.append(text::decimal_of(last_miss as u128).as_str());
            r.append(" call_hit_rate=");
            r.append(shown_last);
            r.append(" total_hit_tokens=");
            r.append(text::decimal_of(total_hit as u128).as_str());
            r.append(" total_miss_tokens=");
            r.append(text::decimal_of(total_miss as u128).as_str());
            r.append(" total_hit_rate=");
            r.append(shown_total);
            r.append(" total_model_calls=");
            r.append(text::decimal_of(self.total_model_calls as u128).as_str());
            r.append(local_summary.as_str());
            r.append(local_summary.as_str());
            r
        } else {
            let mut r = text::owned("info: prompt cache stats: model_calls=");
            r.append(text::decimal_of(self.total_model_calls as u128).as_str());
            r.append(" (no cache telemetry returned yet)");
            r
        }
    }
}

/// Recording a call adds its cache tokens to the totals and leaves the local
/// hits alone.
pub proof fn lemma_recording_adds(stats: PromptCacheStats, usage: ModelUsage)
    requires
        stats.has_room_for(usage),
    ensures
        recorded(stats, usage).hits() == stats.hits() + usage.hits(),
        recorded(stats, usage).misses() == stats.misses() + usage.misses(),
        recorded(stats, usage).total_model_calls == stats.total_model_calls + 1,
        recorded(stats, usage).total_local_cache_hits == stats.total_local_cache_hits,
{
}

/// A call adds what it took in and what it gave out to the totals, whichever
/// names the provider has for them, and is the last call from then on.
pub proof fn lemma_call_is_added(stats: PromptCacheStats, usage: ModelUsage)
    requires
        stats.has_room_for(usage),
    ensures
        ({
            let after = recorded(stats, usage);
            &&& after.total_input_tokens == stats.total_input_tokens + usage.input_tokens
                + usage.prompt_tokens
            &&& after.total_output_tokens == stats.total_output_tokens + usage.output_tokens
                + usage.completion_tokens
            &&& after.total_cache_read_input_tokens == stats.total_cache_read_input_tokens
                + usage.cache_read_input_tokens
            &&& after.total_cache_creation_input_tokens == stats.total_cache_creation_input_tokens
                + usage.cache_creation_input_tokens
            &&& after.total_prompt_cache_hit_tokens == stats.total_prompt_cache_hit_tokens
                + usage.prompt_cache_hit_tokens
            &&& after.total_prompt_cache_miss_tokens == stats.total_prompt_cache_miss_tokens
                + usage.prompt_cache_miss_tokens
            &&& after.last_usage == usage
            &&& !after.last_local_cache_hit
        }),
{
}

/// Tokens that were read from a cache are hits and those that were put into it
/// are misses, whichever names the provider has for them.
pub proof fn lemma_hits_and_misses(usage: ModelUsage, stats: PromptCacheStats)
    ensures
        usage.hits() == usage.cache_read_input_tokens + usage.prompt_cache_hit_tokens,
        usage.misses() == usage.cache_creation_input_tokens + usage.prompt_cache_miss_tokens,
        stats.rates_last() <==> stats.last_usage.hits() > 0 || stats.last_usage.misses() > 0,
        stats.rates_total() <==> stats.hits() > 0 || stats.misses() > 0,
{
}

/// The summary shows the counts and the rates; without a rate it says so, and
/// without anything to show it says that.
pub proof fn lemma_summary_shows_counts(
    stats: PromptCacheStats,
    last_rate: Seq<char>,
    total_rate: Seq<char>,
)
    ensures
        ({
            let line = stats.line(last_rate, total_rate);
            let shown = stats.rates_last() || stats.rates_total() || stats.total_local_cache_hits
                > 0;
            &&& stats.rates_last() && stats.last_usage.hits() >= 0 ==> text::has_text(
                line,
                " call_hit_rate="@ + last_rate,
            )
            &&& stats.rates_total() ==> text::has_text(line, " total_hit_rate="@ + total_rate)
            &&& shown && !stats.rates_last() ==> text::has_text(line, " call_hit_rate="@ + "n/a"@)
            &&& shown && !stats.rates_total() ==> text::has_text(
                line,
                " total_hit_rate="@ + "n/a"@,
            )
            &&& !shown ==> text::has_text(line, " (no cache telemetry returned yet)"@)
        }),
{
    let line = stats.line(last_rate, total_rate);
    let shown = stats.rates_last() || stats.rates_total() || stats.total_local_cache_hits > 0;
    if shown {
        let l = " call_hit_rate="@ + (if stats.rates_last() {
            last_rate
        } else {
            "n/a"@
        });
        let t = " total_hit_rate="@ + (if stats.rates_total() {
            total_rate
        } else {
            "n/a"@
        });
        let h1 = "info: prompt cache stats: call_hit_tokens="@ + text::decimal(
            stats.last_usage.hits() as nat,
        ) + " call_miss_tokens="@ + text::decimal(stats.last_usage.misses() as nat);
        let middle = " total_hit_tokens="@ + text::decimal(stats.hits() as nat)
            + " total_miss_tokens="@ + text::decimal(stats.misses() as nat);
        let end = " total_model_calls="@ + text::decimal(stats.total_model_calls as nat)
            + stats.local_part() + stats.local_part();
        text::lemma_has_itself(l);
        text::lemma_has_itself(t);
        text::lemma_has_text_within(h1, l, middle + t + end, l);
        text::lemma_has_text_within(h1 + l + middle, t, end, t);
        assert(line =~= h1 + l + (middle + t + end));
        assert(line =~= h1 + l + middle + t + end);
    } else {
        let note = " (no cache telemetry returned yet)"@;
        let head = "info: prompt cache stats: model_calls="@ + text::decimal(
            stats.total_model_calls as nat,
        );
        text::lemma_has_itself(note);
        text::lemma_has_text_within(head, note, seq![], note);
        assert(head + note + seq![] =~= line);
    }
}

/// Before the first call nothing was counted.
pub proof fn lemma_nothing_counted_at_first()
    ensures
        no_calls().hits() == 0,
        no_calls().misses() == 0,
        no_calls().total_model_calls == 0,
        no_calls().total_input_tokens == 0,
        no_calls().total_output_tokens == 0,
        no_calls().total_local_cache_hits == 0,
        no_calls().last_usage == no_usage(),
        no_usage().hits() == 0,
        no_usage().misses() == 0,
        no_usage().input_tokens == 0,
        no_usage().output_tokens == 0,
        no_usage().prompt_tokens == 0,
        no_usage().completion_tokens == 0,
        no_usage().total_tokens == 0,
{
}

/// Answers of the local cache are counted in the summary, and whether the last
/// answer was one of them is said; without any nothing is said of it.
pub proof fn lemma_local_answers_are_shown(stats: PromptCacheStats)
    ensures
        stats.total_local_cache_hits == 0 ==> stats.local_part().len() == 0,
        stats.total_local_cache_hits > 0 && stats.last_local_cache_hit ==> stats.local_part()
            == " local_cache_hits="@ + text::decimal(stats.total_local_cache_hits as nat)
            + " last_local_cache_hit="@ + "true"@,
        stats.total_local_cache_hits > 0 && !stats.last_local_cache_hit ==> stats.local_part()
            == " local_cache_hits="@ + text::decimal(stats.total_local_cache_hits as nat)
            + " last_local_cache_hit="@ + "false"@,
{
}

} // verus!
