//! Token usage as the sources report it.

use crate::text;
use vstd::prelude::*;

verus! {

broadcast use vstd::string::group_string_axioms;

/// Token counts by kind. The first four do not overlap; `reasoning` is a part of `output`.
#[derive(Clone, Copy, Debug, PartialEq, Eq, Structural)]
pub struct TokenBuckets {
    pub input: u64,
    pub cache_read: u64,
    pub cache_write: u64,
    pub output: u64,
    pub reasoning: u64,
}

/// The sum of two counts, cut off at the largest one.
pub open spec fn capped_sum(a: int, b: int) -> int {
    if a + b > u64::MAX {
        u64::MAX as int
    } else {
        a + b
    }
}

impl TokenBuckets {
    /// All tokens, each counted once.
    pub open spec fn sum(self) -> int {
        capped_sum(
            capped_sum(
                capped_sum(self.input as int, self.cache_read as int),
                self.cache_write as int,
            ),
            self.output as int,
        )
    }

    /// Counts that do not overlap, with no reasoning among the output.
    pub fn disjoint(input: u64, cache_read: u64, cache_write: u64, output: u64) -> (r: Self)
        ensures
            r == (TokenBuckets { input, cache_read, cache_write, output, reasoning: 0 }),
    {
        TokenBuckets { input, cache_read, cache_write, output, reasoning: 0 }
    }

    /// All tokens, each counted once.
    pub fn additive_total(&self) -> (r: u64)
        ensures
            r == self.sum(),
    {
        self.input.saturating_add(self.cache_read).saturating_add(self.cache_write).saturating_add(
            self.output,
        )
    }
}

/// One request or session with the tokens that it used. `C` is the type of a cost.
#[derive(Debug)]
pub struct UsageEvent<C> {
    pub source: &'static str,
    pub source_path: String,
    pub source_record_id: Option<String>,
    pub session_id: Option<String>,
    pub request_id: Option<String>,
    pub message_id: Option<String>,
    /// Milliseconds since the Unix epoch.
    pub timestamp_ms: u64,
    pub project: Option<String>,
    pub provider: Option<String>,
    pub model: Option<String>,
    pub tokens: TokenBuckets,
    pub source_cost_usd: Option<C>,
    pub dedupe_confidence: &'static str,
    pub conservative_undercount: bool,
    pub sidechain: bool,
    pub source_order: u64,
}

/// The model of [`UsageEvent`].
#[verifier::ext_equal]
pub struct UsageModel<C> {
    pub source: Seq<char>,
    pub source_path: Seq<char>,
    pub source_record_id: Option<Seq<char>>,
    pub session_id: Option<Seq<char>>,
    pub request_id: Option<Seq<char>>,
    pub message_id: Option<Seq<char>>,
    pub timestamp_ms: u64,
    pub project: Option<Seq<char>>,
    pub provider: Option<Seq<char>>,
    pub model: Option<Seq<char>>,
    pub tokens: TokenBuckets,
    pub source_cost_usd: Option<C>,
    pub dedupe_confidence: Seq<char>,
    pub conservative_undercount: bool,
    pub sidechain: bool,
    pub source_order: u64,
}

impl<C> View for UsageEvent<C> {
    type V = UsageModel<C>;

    open spec fn view(&self) -> UsageModel<C> {
        UsageModel {
            source: self.source@,
            source_path: self.source_path@,
            source_record_id: text::opt_text(self.source_record_id),
            session_id: text::opt_text(self.session_id),
            request_id: text::opt_text(self.request_id),
            message_id: text::opt_text(self.message_id),
            timestamp_ms: self.timestamp_ms,
            project: text::opt_text(self.project),
            provider: text::opt_text(self.provider),
            model: text::opt_text(self.model),
            tokens: self.tokens,
            source_cost_usd: self.source_cost_usd,
            dedupe_confidence: self.dedupe_confidence@,
            conservative_undercount: self.conservative_undercount,
            sidechain: self.sidechain,
            source_order: self.source_order,
        }
    }
}

/// The models of a list of events.
pub open spec fn usage_model<C>(events: Seq<UsageEvent<C>>) -> Seq<UsageModel<C>> {
    events.map_values(|event: UsageEvent<C>| event@)
}

/// The total counts input, both kinds of cache tokens and output once each, and reasoning, which is
/// a part of the output, not a second time. It stops at the largest number there is.
pub proof fn law_total_counts_tokens_once(tokens: TokenBuckets)
    ensures
        ({
            let all = tokens.input + tokens.cache_read + tokens.cache_write + tokens.output;
            &&& all <= u64::MAX ==> tokens.sum() == all
            &&& all > u64::MAX ==> tokens.sum() == u64::MAX
        }),
{
}

} // verus!
