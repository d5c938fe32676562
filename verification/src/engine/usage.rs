//! Provider usage over several calls.

use crate::proto::{AsrUsage, AudioSeconds, SecondsTerm};
use vstd::prelude::*;

verus! {

/// Reported usage, with the duration as the term that denotes it.
#[verifier::ext_equal]
pub struct UsageView {
    pub audio_seconds: Option<Seq<SecondsTerm>>,
    pub input_tokens: Option<u64>,
    pub output_tokens: Option<u64>,
    pub total_tokens: Option<u64>,
}

impl View for AsrUsage {
    type V = UsageView;

    open spec fn view(&self) -> UsageView {
        UsageView {
            audio_seconds: match self.audio_seconds {
                Some(s) => Some(s@),
                None => None,
            },
            input_tokens: self.input_tokens,
            output_tokens: self.output_tokens,
            total_tokens: self.total_tokens,
        }
    }
}

/// The usage that an optional value holds.
pub open spec fn optional_usage(u: Option<AsrUsage>) -> Option<UsageView> {
    match u {
        Some(u) => Some(u@),
        None => None,
    }
}

/// The sum of two counts, where a missing one adds nothing. The sum stops at
/// the largest count.
pub open spec fn sum_counts(a: Option<u64>, b: Option<u64>) -> Option<u64> {
    match (a, b) {
        (Some(x), Some(y)) => Some(
            if x + y > u64::MAX {
                u64::MAX
            } else {
                (x + y) as u64
            },
        ),
        (Some(x), None) => Some(x),
        (None, b) => b,
    }
}

/// The sum of two durations, where a missing one adds nothing.
pub open spec fn sum_seconds(a: Option<Seq<SecondsTerm>>, b: Option<Seq<SecondsTerm>>) -> Option<
    Seq<SecondsTerm>,
> {
    match (a, b) {
        (Some(x), Some(y)) => Some(x + y + seq![SecondsTerm::Plus]),
        (Some(x), None) => Some(x),
        (None, b) => b,
    }
}

/// The sum of two usages, field by field.
pub open spec fn sum_usage(a: Option<UsageView>, b: Option<UsageView>) -> Option<UsageView> {
    match (a, b) {
        (Some(x), Some(y)) => Some(
            UsageView {
                audio_seconds: sum_seconds(x.audio_seconds, y.audio_seconds),
                input_tokens: sum_counts(x.input_tokens, y.input_tokens),
                output_tokens: sum_counts(x.output_tokens, y.output_tokens),
                total_tokens: sum_counts(x.total_tokens, y.total_tokens),
            },
        ),
        (Some(x), None) => Some(x),
        (None, b) => b,
    }
}

/// Adds two counts.
pub fn sum_opt_u64(a: Option<u64>, b: Option<u64>) -> (r: Option<u64>)
    ensures
        r == sum_counts(a, b),
{
    match (a, b) {
        (None, None) => None,
        (Some(x), None) => Some(x),
        (None, Some(y)) => Some(y),
        (Some(x), Some(y)) => Some(x.saturating_add(y)),
    }
}

/// Adds two durations.
pub fn sum_opt_seconds(a: Option<AudioSeconds>, b: Option<AudioSeconds>) -> (r: Option<
    AudioSeconds,
>)
    ensures
        (match r {
            Some(s) => Some(s@),
            None => None,
        }) == sum_seconds(
            match a {
                Some(s) => Some(s@),
                None => None,
            },
            match b {
                Some(s) => Some(s@),
                None => None,
            },
        ),
{
    match (a, b) {
        (None, None) => None,
        (Some(x), None) => Some(x),
        (None, Some(y)) => Some(y),
        (Some(x), Some(y)) => Some(x.plus(y)),
    }
}

/// Adds two usages. The result is missing only if both are.
pub fn merge_asr_usage(a: Option<AsrUsage>, b: Option<AsrUsage>) -> (r: Option<AsrUsage>)
    ensures
        optional_usage(r) == sum_usage(optional_usage(a), optional_usage(b)),
        r is None <==> a is None && b is None,
{
    match (a, b) {
        (None, None) => None,
        (Some(x), None) => Some(x),
        (None, Some(y)) => Some(y),
        (Some(x), Some(y)) => Some(
            AsrUsage {
                audio_seconds: sum_opt_seconds(x.audio_seconds, y.audio_seconds),
                input_tokens: sum_opt_u64(x.input_tokens, y.input_tokens),
                output_tokens: sum_opt_u64(x.output_tokens, y.output_tokens),
                total_tokens: sum_opt_u64(x.total_tokens, y.total_tokens),
            },
        ),
    }
}

/// Token counts add up the same in any grouping and any order.
pub proof fn law_counts_sum_in_any_order(a: Option<u64>, b: Option<u64>, c: Option<u64>)
    ensures
        sum_counts(a, b) == sum_counts(b, a),
        sum_counts(sum_counts(a, b), c) == sum_counts(a, sum_counts(b, c)),
{
}

/// A count that is missing adds nothing; two counts that are there add up, as
/// far as a count goes.
pub proof fn law_counts_add_up(a: Option<u64>, x: u64, y: u64)
    ensures
        sum_counts(a, None) == a,
        sum_counts(None, a) == a,
        x + y <= u64::MAX ==> sum_counts(Some(x), Some(y)) == Some((x + y) as u64),
        x + y > u64::MAX ==> sum_counts(Some(x), Some(y)) == Some(u64::MAX),
{
}

/// Usage that is missing adds nothing; two reports that are there add up field by
/// field. A duration that is missing adds nothing either, and two durations are
/// added in order.
pub proof fn law_reports_add_up(a: Option<UsageView>, x: UsageView, y: UsageView)
    ensures
        sum_usage(a, None) == a,
        sum_usage(None, a) == a,
        sum_usage(Some(x), Some(y)) matches Some(sum) && {
            &&& sum.input_tokens == sum_counts(x.input_tokens, y.input_tokens)
            &&& sum.output_tokens == sum_counts(x.output_tokens, y.output_tokens)
            &&& sum.total_tokens == sum_counts(x.total_tokens, y.total_tokens)
            &&& x.audio_seconds is None ==> sum.audio_seconds == y.audio_seconds
            &&& y.audio_seconds is None ==> sum.audio_seconds == x.audio_seconds
            &&& x.audio_seconds matches Some(s) ==> y.audio_seconds matches Some(t) ==> sum.audio_seconds
                == Some((s + t).push(SecondsTerm::Plus))
        },
{
    if let (Some(s), Some(t)) = (x.audio_seconds, y.audio_seconds) {
        assert(s + t + seq![SecondsTerm::Plus] =~= (s + t).push(SecondsTerm::Plus));
    }
}

/// The model's usage is that of the report, each figure in its place.
pub proof fn law_usage_is_modelled_one_for_one(u: AsrUsage)
    ensures
        optional_usage(None) is None,
        optional_usage(Some(u)) == Some(u@),
        u.audio_seconds is None ==> u@.audio_seconds is None,
        u.audio_seconds matches Some(s) ==> u@.audio_seconds == Some(s.postfix@),
        u@.input_tokens == u.input_tokens,
        u@.output_tokens == u.output_tokens,
        u@.total_tokens == u.total_tokens,
{
}

} // verus!
