//! One recorded observation of token and network usage.

use vstd::prelude::*;
use crate::delta::reading;

verus! {

/// One row of the sample log.
///
/// The token and byte counters are cumulative and may reset; the remaining
/// numbers are gauges that are only ever reported as they were recorded.
#[derive(Debug, Clone, PartialEq, Eq)]
pub struct Sample {
    /// Milliseconds since the epoch; the key by which samples are ordered.
    pub ts_ms: i64,
    /// The usage session that the sample belongs to, if it has one.
    pub session_key: Option<String>,
    /// The model in use; informational.
    pub model: Option<String>,
    pub input_tokens: Option<i64>,
    pub output_tokens: Option<i64>,
    pub total_tokens: Option<i64>,
    pub remaining_tokens: Option<i64>,
    pub context_tokens: Option<i64>,
    pub percent_used: Option<i64>,
    pub net_rx_bytes: Option<i64>,
    pub net_tx_bytes: Option<i64>,
}

/// A sample as a mathematical value.
pub struct SampleView {
    pub ts_ms: int,
    pub session_key: Option<Seq<char>>,
    pub model: Option<Seq<char>>,
    pub input_tokens: Option<int>,
    pub output_tokens: Option<int>,
    pub total_tokens: Option<int>,
    pub remaining_tokens: Option<int>,
    pub context_tokens: Option<int>,
    pub percent_used: Option<int>,
    pub net_rx_bytes: Option<int>,
    pub net_tx_bytes: Option<int>,
}

/// An optional string as its characters.
pub open spec fn text(x: Option<String>) -> Option<Seq<char>> {
    match x {
        Some(s) => Some(s@),
        None => None,
    }
}

impl View for Sample {
    type V = SampleView;

    open spec fn view(&self) -> SampleView {
        SampleView {
            ts_ms: self.ts_ms as int,
            session_key: text(self.session_key),
            model: text(self.model),
            input_tokens: reading(self.input_tokens),
            output_tokens: reading(self.output_tokens),
            total_tokens: reading(self.total_tokens),
            remaining_tokens: reading(self.remaining_tokens),
            context_tokens: reading(self.context_tokens),
            percent_used: reading(self.percent_used),
            net_rx_bytes: reading(self.net_rx_bytes),
            net_tx_bytes: reading(self.net_tx_bytes),
        }
    }
}

/// The samples of a vector as mathematical values, in their order.
pub open spec fn sample_views(samples: Seq<Sample>) -> Seq<SampleView> {
    samples.map_values(|s: Sample| s@)
}

/// Copies an optional string.
pub fn copy_text(x: &Option<String>) -> (y: Option<String>)
    ensures
        text(y) == text(*x),
{
    match x {
        Some(s) => Some(s.clone()),
        None => None,
    }
}

} // verus!
