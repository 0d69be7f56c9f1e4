//! Models, thinking levels and token usage.

use vstd::prelude::*;

verus! {

/// A model of a provider.
#[derive(Debug)]
pub struct Model {
    /// vendor id, e.g. `anthropic`
    pub provider: String,
    pub id: String,
    pub context_window: u64,
    /// most output tokens per response
    pub max_tokens: usize,
}

/// What a `Model` denotes.
pub struct ModelView {
    pub provider: Seq<char>,
    pub id: Seq<char>,
    pub context_window: u64,
    pub max_tokens: usize,
}

impl View for Model {
    type V = ModelView;

    open spec fn view(&self) -> ModelView {
        ModelView {
            provider: self.provider@,
            id: self.id@,
            context_window: self.context_window,
            max_tokens: self.max_tokens,
        }
    }
}

impl Clone for Model {
    fn clone(&self) -> (r: Self)
        ensures
            r == *self,
    {
        Model {
            provider: self.provider.clone(),
            id: self.id.clone(),
            context_window: self.context_window,
            max_tokens: self.max_tokens,
        }
    }
}

/// How much thinking a model is asked for.
#[derive(Debug, Clone, Copy, PartialEq, Eq, Structural)]
pub enum ThinkingLevel {
    Off,
    Low,
    Medium,
    High,
}

/// Token usage of one response, or of several added up.
#[derive(Debug, Clone, Copy, PartialEq, Eq, Structural)]
pub struct Usage {
    pub input: u64,
    pub output: u64,
    pub cache_read: u64,
    pub cache_write: u64,
    pub total: u64,
}

/// The sum of two counters, modulo the counter's range.
pub open spec fn wrapped_sum(a: u64, b: u64) -> u64 {
    if a + b > u64::MAX {
        (a + b - u64::MAX - 1) as u64
    } else {
        (a + b) as u64
    }
}

/// No usage at all.
pub open spec fn no_usage() -> Usage {
    Usage { input: 0, output: 0, cache_read: 0, cache_write: 0, total: 0 }
}

/// Two usages added up, counter by counter.
pub open spec fn usage_sum(a: Usage, b: Usage) -> Usage {
    Usage {
        input: wrapped_sum(a.input, b.input),
        output: wrapped_sum(a.output, b.output),
        cache_read: wrapped_sum(a.cache_read, b.cache_read),
        cache_write: wrapped_sum(a.cache_write, b.cache_write),
        total: wrapped_sum(a.total, b.total),
    }
}

impl Default for Usage {
    fn default() -> (r: Self)
        ensures
            r == no_usage(),
    {
        Usage { input: 0, output: 0, cache_read: 0, cache_write: 0, total: 0 }
    }
}

impl Usage {
    /// Adds the counters of `other`; each wraps at its range.
    pub fn accumulate(&mut self, other: &Usage)
        ensures
            *final(self) == usage_sum(*old(self), *other),
    {
        self.input = self.input.wrapping_add(other.input);
        self.output = self.output.wrapping_add(other.output);
        self.cache_read = self.cache_read.wrapping_add(other.cache_read);
        self.cache_write = self.cache_write.wrapping_add(other.cache_write);
        self.total = self.total.wrapping_add(other.total);
    }
}

/// Adding up usages is associative: the total of a run does not depend on how its turns
/// are grouped.
pub proof fn usage_sum_associative(a: Usage, b: Usage, c: Usage)
    ensures
        usage_sum(usage_sum(a, b), c) == usage_sum(a, usage_sum(b, c)),
{
}

/// Usages add up counter by counter: what fits is the sum, order makes no difference, and no
/// usage adds nothing.
pub proof fn usages_add_up(a: Usage, b: Usage)
    ensures
        a.input + b.input <= u64::MAX ==> usage_sum(a, b).input == a.input + b.input,
        a.output + b.output <= u64::MAX ==> usage_sum(a, b).output == a.output + b.output,
        a.cache_read + b.cache_read <= u64::MAX ==> usage_sum(a, b).cache_read == a.cache_read
            + b.cache_read,
        a.cache_write + b.cache_write <= u64::MAX ==> usage_sum(a, b).cache_write == a.cache_write
            + b.cache_write,
        a.total + b.total <= u64::MAX ==> usage_sum(a, b).total == a.total + b.total,
        usage_sum(a, b) == usage_sum(b, a),
        usage_sum(a, no_usage()) == a,
{
}

/// A sum that does not fit wraps around: it falls short of the true sum by 2^64.
pub proof fn sums_wrap_around(a: u64, b: u64)
    ensures
        a + b > u64::MAX ==> wrapped_sum(a, b) == a + b - 0x1_0000_0000_0000_0000,
{
}

} // verus!
